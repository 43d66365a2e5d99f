use axtc::utils::{answer, or_all_known, read_user_confirm, ConfirmError};
use axtc::AxtcTarget;

#[test]
fn init_targets() {
    let (herbstluftwm, polybar, neovim) = (true, false, true);

    let targets: Vec<AxtcTarget> = axtc::utils::init_targets(vec![
        (herbstluftwm, AxtcTarget::Herbstluftwm("herbstluftwm".into())),
        (polybar, AxtcTarget::Polybar("polybar".into())),
        (neovim, AxtcTarget::Neovim("neovim".into())),
    ]);

    assert_eq!(
        targets,
        vec![
            AxtcTarget::Herbstluftwm("herbstluftwm".into()),
            AxtcTarget::Neovim("neovim".into())
        ]
    );
}

#[test]
fn read_user_confirm_yes() {
    let response = &b"y"[..];
    let res = read_user_confirm(response);
    assert!(matches!(res, Ok(true)));
}

#[test]
fn read_user_confirm_yes_ignore_capitalization() {
    let response = &b"Y"[..];
    let res = read_user_confirm(response);
    assert!(matches!(res, Ok(true)));
}

#[test]
fn read_user_confirm_no() {
    let response = &b"n"[..];
    let res = read_user_confirm(response);
    assert!(matches!(res, Ok(false)));
}

#[test]
fn read_user_confirm_no_ignore_capitalization() {
    let response = &b"N"[..];
    let res = read_user_confirm(response);
    assert!(matches!(res, Ok(false)));
}

#[test]
fn read_user_confirm_fail() {
    let response = &b"abcdefg"[..];
    let res = read_user_confirm(response);
    assert!(res.is_err());
}

#[test]
fn read_user_confirm_takes_whitespace_around_the_answer() {
    assert_eq!(read_user_confirm(b"  y\n"), Ok(true));
    assert_eq!(read_user_confirm(b"\tN \r\n"), Ok(false));
    assert_eq!(read_user_confirm("\u{2003}y\u{a0}".as_bytes()), Ok(true));
}

#[test]
fn read_user_confirm_names_each_error() {
    assert_eq!(read_user_confirm(b""), Err(ConfirmError::InvalidInput));
    assert_eq!(read_user_confirm(b"yes"), Err(ConfirmError::InvalidInput));
    assert_eq!(read_user_confirm(b"y n"), Err(ConfirmError::InvalidInput));
    assert_eq!(read_user_confirm(&[0xff, b'y']), Err(ConfirmError::InvalidData));
    assert_eq!(read_user_confirm(&[b'y', 0xc3]), Err(ConfirmError::InvalidData));
}

#[test]
fn answer_reads_text() {
    assert_eq!(answer("y"), Some(true));
    assert_eq!(answer(" n "), Some(false));
    assert_eq!(answer(""), None);
    assert_eq!(answer("ja"), None);
}

#[test]
fn init_targets_of_nothing_is_empty() {
    assert_eq!(axtc::utils::init_targets(Vec::new()), Vec::<AxtcTarget>::new());
    assert_eq!(
        axtc::utils::init_targets(vec![(false, AxtcTarget::Alacritty("a".into()))]),
        Vec::<AxtcTarget>::new()
    );
}

#[test]
fn no_choice_means_all_known_targets() {
    let known = vec![
        AxtcTarget::Alacritty("a.yml".to_string()),
        AxtcTarget::Polybar("p.ini".to_string()),
    ];
    assert_eq!(or_all_known(Vec::new(), known.clone()), known);
    let chosen = vec![AxtcTarget::Polybar("mine.ini".to_string())];
    assert_eq!(or_all_known(chosen.clone(), known.clone()), chosen);
    assert_eq!(or_all_known(Vec::new(), Vec::new()), Vec::<AxtcTarget>::new());
    assert_eq!(
        or_all_known(axtc::utils::init_targets(vec![(false, chosen[0].clone())]), known.clone()),
        known
    );
}
