use axtc::apply::{after_read, after_write, Step};
use axtc::errors::{IoError, MalformedCause, ValidationError};
use axtc::palette::Palette;
use axtc::{load, AxtcTarget};

const SAMPLE: &str = r##"{"theme":"t","color":["#000000","#ff0000","#00ff00","#ffff00","#0000ff","#ff00ff","#00ffff","#ffffff","#111111","#ff1111","#11ff11","#ffff11","#1111ff","#ff11ff","#11ffff","#ffffff"],"background":"#1e1e1e","foreground":"#d4d4d4"}"##;

const NAMES: [&str; 8] = ["black", "red", "green", "yellow", "blue", "magenta", "cyan", "white"];

fn document(colors: &[String], background: &str, foreground: &str) -> String {
    let quoted: Vec<String> = colors.iter().map(|c| format!("\"{}\"", c)).collect();
    format!(
        "{{\"theme\":\"t\",\"color\":[{}],\"background\":\"{}\",\"foreground\":\"{}\"}}",
        quoted.join(","),
        background,
        foreground
    )
}

fn numbered() -> String {
    let colors: Vec<String> = (0..16).map(|i| format!("#c0c0{:02x}", i)).collect();
    document(&colors, "#1a2b3c", "#d4d4d4")
}

/// The files of a run, in memory: the content of each path, the paths that
/// cannot be written, and what was done.
struct Files {
    content: Vec<(String, String)>,
    read_only: Vec<String>,
    log: Vec<String>,
}

impl Files {
    fn holding(content: &[(&str, &str)]) -> Files {
        Files {
            content: content.iter().map(|(p, c)| (p.to_string(), c.to_string())).collect(),
            read_only: Vec::new(),
            log: Vec::new(),
        }
    }

    fn get(&self, path: &str) -> Option<String> {
        self.content.iter().find(|(p, _)| p == path).map(|(_, c)| c.clone())
    }

    fn read(&mut self, path: &str) -> Option<String> {
        self.log.push(format!("read {}", path));
        self.get(path)
    }

    fn write(&mut self, path: &str, content: &str) -> bool {
        self.log.push(format!("write {}", path));
        if self.read_only.iter().any(|p| p == path) {
            return false;
        }
        self.content.retain(|(p, _)| p != path);
        self.content.push((path.to_string(), content.to_string()));
        true
    }
}

fn follow(
    palette: &Palette,
    targets: &Vec<AxtcTarget>,
    first: Step,
    files: &mut Files,
) -> Result<(), IoError> {
    let mut step = first;
    loop {
        step = match step {
            Step::Read(index) => {
                let text = files.read(targets[index].path());
                after_read(palette, targets, index, text.as_deref())
            }
            Step::Write(index, content) => {
                let written = files.write(targets[index].path(), &content);
                after_write(palette, targets, index, written)
            }
            Step::Done(result) => return result,
        };
    }
}

fn load_and_follow(
    raw: &str,
    targets: &Vec<AxtcTarget>,
    files: &mut Files,
) -> Result<Result<(), IoError>, ValidationError> {
    let (palette, first) = load(raw.as_bytes(), targets)?;
    Ok(follow(&palette, targets, first, files))
}

fn bar(path: &str) -> AxtcTarget {
    AxtcTarget::Polybar(path.to_string())
}

fn term(path: &str) -> AxtcTarget {
    AxtcTarget::Alacritty(path.to_string())
}

#[test]
fn load_parses_and_begins_the_run() {
    let targets = vec![term("t.yml"), bar("b.ini")];
    let (palette, first) = load(SAMPLE.as_bytes(), &targets).unwrap();
    assert_eq!(palette.scheme_name(), "t");
    assert_eq!(palette.color(9), Some("#ff1111"));
    assert_eq!(first, Step::Read(0));
    let (_, first) = load(SAMPLE.as_bytes(), &Vec::new()).unwrap();
    assert_eq!(first, Step::Done(Ok(())));
    let (_, first) = load(SAMPLE.as_bytes(), &vec![AxtcTarget::Neovim("n".into())]).unwrap();
    assert_eq!(first, Step::Done(Err(IoError::Unsupported(0))));
}

#[test]
fn load_rejects_every_length_but_sixteen() {
    for count in [0usize, 15, 17, 100] {
        let colors: Vec<String> = (0..count).map(|_| "#123abc".to_string()).collect();
        let raw = document(&colors, "#1e1e1e", "#d4d4d4");
        let targets = vec![term("t.yml"), bar("b.ini")];
        let mut files = Files::holding(&[("t.yml", "colors:\n  old\n"), ("b.ini", "old")]);
        assert_eq!(
            load_and_follow(&raw, &targets, &mut files),
            Err(ValidationError::BadPaletteLength(count))
        );
        assert!(files.log.is_empty());
        assert_eq!(files.get("t.yml").unwrap(), "colors:\n  old\n");
        assert_eq!(files.get("b.ini").unwrap(), "old");
    }
}

#[test]
fn load_of_an_empty_color_list_leaves_the_status_bar_file() {
    let raw = r##"{"theme":"t","color":[],"background":"#1e1e1e","foreground":"#d4d4d4"}"##;
    let targets = vec![bar("d")];
    let mut files = Files::holding(&[("d", "s0")]);
    assert_eq!(
        load(raw.as_bytes(), &targets).unwrap_err(),
        ValidationError::BadPaletteLength(0)
    );
    assert_eq!(
        load_and_follow(raw, &targets, &mut files),
        Err(ValidationError::BadPaletteLength(0))
    );
    assert_eq!(files.get("d").unwrap(), "s0");
    assert!(files.log.is_empty());
}

#[test]
fn load_passes_every_fault_of_the_document_on() {
    let targets = vec![bar("d")];
    assert_eq!(
        load(b"[]", &targets).unwrap_err(),
        ValidationError::Malformed(MalformedCause::NotAnObject)
    );
    assert!(matches!(
        load(b"{", &targets).unwrap_err(),
        ValidationError::Malformed(MalformedCause::Syntax(_))
    ));
}

#[test]
fn load_twice_leaves_the_same_status_bar_file() {
    let targets = vec![bar("d")];
    for before in ["", "old content\n", "[color]\nbackground = #000000\n"] {
        let mut files = Files::holding(&[("d", before)]);
        assert_eq!(load_and_follow(SAMPLE, &targets, &mut files), Ok(Ok(())));
        let first = files.get("d").unwrap();
        assert_eq!(load_and_follow(SAMPLE, &targets, &mut files), Ok(Ok(())));
        let second = files.get("d").unwrap();
        assert_eq!(first.as_bytes(), second.as_bytes());
        let mut fresh = Files::holding(&[]);
        assert_eq!(load_and_follow(SAMPLE, &targets, &mut fresh), Ok(Ok(())));
        assert_eq!(fresh.get("d").unwrap(), first);
    }
}

#[test]
fn load_keeps_the_lines_around_the_terminal_block() {
    let old_blocks = ["", "  primary:\n    background: '0x000000'\n", "\n  # c\n\tx: 1\n#top\n   \n"];
    for n in 0..3 {
        for m in 0..3 {
            for old in old_blocks {
                let before: String = (0..n).map(|i| format!("before{}: {}\n", i, i)).collect();
                let after: String = (0..m).map(|i| format!("after{}:\n  v: {}\n", i, i)).collect();
                let existing = format!("{}colors:\n{}{}", before, old, after);
                let targets = vec![term("t.yml")];
                let mut files = Files::holding(&[("t.yml", existing.as_str())]);
                assert_eq!(load_and_follow(&numbered(), &targets, &mut files), Ok(Ok(())));
                let written = files.get("t.yml").unwrap();
                let lines: Vec<&str> = written.lines().collect();
                let kept_before: Vec<&str> = before.lines().collect();
                let kept_after: Vec<&str> = after.lines().collect();
                assert_eq!(lines.len(), kept_before.len() + 22 + kept_after.len());
                assert_eq!(&lines[..kept_before.len()], &kept_before[..]);
                assert_eq!(&lines[kept_before.len() + 22..], &kept_after[..]);
                assert_eq!(lines[kept_before.len()], "colors:");
                assert!(written.ends_with('\n'));
                assert!(!written.contains("\n\n"));
            }
        }
    }
}

#[test]
fn load_writes_terminal_colors_as_0x() {
    let mut colors: Vec<String> = (0..16).map(|i| format!("#c0c0{:02x}", i)).collect();
    colors[3] = "#1a2b3c".to_string();
    colors[12] = "#1A2B3C".to_string();
    let raw = document(&colors, "#1a2b3c", "#1a2b3c");
    let targets = vec![term("t.yml")];
    let mut files = Files::holding(&[("t.yml", "colors:\n")]);
    assert_eq!(load_and_follow(&raw, &targets, &mut files), Ok(Ok(())));
    let written = files.get("t.yml").unwrap();
    let lines: Vec<&str> = written.lines().collect();
    assert_eq!(lines[2], "    background: '0x1a2b3c'");
    assert_eq!(lines[3], "    foreground: '0x1a2b3c'");
    assert_eq!(lines[8], "    yellow: '0x1a2b3c'");
    assert_eq!(lines[18], "    blue: '0x1A2B3C'");
    assert!(!written.contains('#'));
}

#[test]
fn load_writes_status_bar_colors_as_they_are() {
    let targets = vec![bar("d")];
    let mut files = Files::holding(&[]);
    assert_eq!(load_and_follow(&numbered(), &targets, &mut files), Ok(Ok(())));
    let written = files.get("d").unwrap();
    assert!(written.lines().any(|l| l == "background = #1a2b3c"));
    assert!(!written.contains("0x"));
}

#[test]
fn load_lists_the_normal_and_the_bright_colors_by_name() {
    let targets = vec![term("t.yml")];
    let mut files = Files::holding(&[("t.yml", "colors:\n")]);
    assert_eq!(load_and_follow(&numbered(), &targets, &mut files), Ok(Ok(())));
    let written = files.get("t.yml").unwrap();
    let lines: Vec<&str> = written.lines().collect();
    assert_eq!(lines.len(), 22);
    assert_eq!(lines[4], "  normal:");
    assert_eq!(lines[13], "  bright:");
    for (i, name) in NAMES.iter().enumerate() {
        assert_eq!(lines[5 + i], format!("    {}: '0xc0c0{:02x}'", name, i));
        assert_eq!(lines[14 + i], format!("    {}: '0xc0c0{:02x}'", name, 8 + i));
    }
}

#[test]
fn load_leaves_a_terminal_file_without_marker_as_it_was() {
    for existing in [
        "",
        "a",
        "font:\n  size: 12\n",
        "font:  \r\n  size: 12 \r\n",
        "  colors:\n    primary:\n",
        "Colors:\n  x: 1\nno final line feed  ",
    ] {
        let targets = vec![term("t.yml")];
        let mut files = Files::holding(&[("t.yml", existing)]);
        assert_eq!(load_and_follow(SAMPLE, &targets, &mut files), Ok(Ok(())));
        assert_eq!(files.get("t.yml").unwrap(), existing);
    }
}

#[test]
fn load_of_the_sample_fills_an_empty_status_bar_file() {
    let targets = vec![bar("d")];
    let mut files = Files::holding(&[("d", "")]);
    assert_eq!(load_and_follow(SAMPLE, &targets, &mut files), Ok(Ok(())));
    let written = files.get("d").unwrap();
    let lines: Vec<&str> = written.lines().collect();
    assert_eq!(
        lines,
        vec![
            "[color]",
            "background = #1e1e1e",
            "foreground = #d4d4d4",
            "black = #000000",
            "red = #ff0000",
            "green = #00ff00",
            "yellow = #ffff00",
            "blue = #0000ff",
            "magenta = #ff00ff",
            "cyan = #00ffff",
            "white = #ffffff",
            "altblack = #111111",
            "altred = #ff1111",
            "altgreen = #11ff11",
            "altyellow = #ffff11",
            "altblue = #1111ff",
            "altmagenta = #ff11ff",
            "altcyan = #11ffff",
            "altwhite = #ffffff",
        ]
    );
}

#[test]
fn load_stops_at_the_first_failing_target() {
    let targets = vec![bar("t1"), term("t2"), bar("t3")];
    let mut files = Files::holding(&[("t1", "old1"), ("t3", "old3")]);
    let (palette, first) = load(SAMPLE.as_bytes(), &targets).unwrap();
    let kept = palette.clone();
    assert_eq!(follow(&palette, &targets, first, &mut files), Err(IoError::Read(1)));
    assert_eq!(IoError::Read(1).target(), 1);
    assert_eq!(files.log, vec!["write t1", "read t2"]);
    assert!(files.get("t1").unwrap().starts_with("[color]\n"));
    assert_eq!(files.get("t3").unwrap(), "old3");
    assert_eq!(palette, kept);

    let mut files = Files::holding(&[("t1", "old1"), ("t2", "colors:\n"), ("t3", "old3")]);
    files.read_only = vec!["t2".to_string()];
    assert_eq!(load_and_follow(SAMPLE, &targets, &mut files), Ok(Err(IoError::Write(1))));
    assert_eq!(files.log, vec!["write t1", "read t2", "write t2"]);
    assert_eq!(files.get("t2").unwrap(), "colors:\n");
    assert_eq!(files.get("t3").unwrap(), "old3");
}
