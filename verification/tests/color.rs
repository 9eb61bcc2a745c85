use focaldesk::color_test::{
    fill_test_pattern, named_transfer, parse_args, App, AppAction, AppError, NamedTransfer,
    ParsedArgs, ReadyImage, TestMode, TransferTag, HEIGHT, STRIDE,
};

fn args(words: &[&str]) -> Vec<String> {
    words.iter().map(|w| w.to_string()).collect()
}

#[test]
fn arguments_are_read_from_the_left() {
    assert_eq!(
        parse_args(&args(&[])).unwrap(),
        ParsedArgs::Run {
            mode: TestMode::Simple,
            transfer: TransferTag::Linear
        }
    );
    assert_eq!(
        parse_args(&args(&["--chrome-path", "-t", "SRGB"])).unwrap(),
        ParsedArgs::Run {
            mode: TestMode::ChromePath,
            transfer: TransferTag::Srgb
        }
    );
    assert_eq!(
        parse_args(&args(&["-h", "--bad"])).unwrap(),
        ParsedArgs::Help
    );
    assert_eq!(
        parse_args(&args(&["--bad", "-h"])).unwrap_err().message(),
        "unknown argument `--bad`"
    );
    assert_eq!(
        parse_args(&args(&["--transfer"])).unwrap_err().message(),
        "--transfer requires a value (srgb or linear)"
    );
    assert_eq!(
        parse_args(&args(&["-t", "HLG"])).unwrap_err().message(),
        "unknown transfer `hlg` (expected srgb or linear)"
    );
    assert_eq!(named_transfer(TransferTag::Srgb), NamedTransfer::Bt1886);
    assert_eq!(named_transfer(TransferTag::Linear), NamedTransfer::ExtLinear);
}

#[test]
fn pictures_are_committed_once_everything_is_ready() {
    let mut app = App::new(TestMode::Simple, TransferTag::Linear);
    assert_eq!(app.check_globals(), Err(AppError::ManagerNotDone));
    for (name, version) in [
        ("wl_compositor", 9),
        ("wl_shm", 1),
        ("wl_output", 2),
        ("xdg_wm_base", 6),
        ("wp_color_manager_v1", 5),
    ] {
        assert!(app.on_global(name, version).unwrap() <= version);
    }
    assert_eq!(app.on_global("wl_seat", 3), None);
    app.on_manager_done();
    assert_eq!(app.check_globals(), Ok(()));
    assert_eq!(
        app.create_image_description(),
        Ok(NamedTransfer::ExtLinear)
    );
    assert_eq!(app.on_image_ready(ReadyImage::Own), AppAction::Nothing);
    assert_eq!(app.check_image(), Ok(()));
    assert!(app.create_window().is_ok());
    assert_eq!(app.commit_if_ready(), Ok(false));
    assert_eq!(app.on_configure(), AppAction::Commit);
    assert_eq!(app.commit_if_ready(), Ok(true));
    app.on_close();
    assert!(app.done);
}

#[test]
fn the_pattern_has_two_halves() {
    let mut pixels = vec![0u8; STRIDE as usize * HEIGHT as usize];
    fill_test_pattern(&mut pixels, 10, 200);
    let half = STRIDE as usize / 2;
    let row = &pixels[..STRIDE as usize];
    assert_eq!(row[1], 10);
    assert_eq!(row[half + 1], 200);
    assert_eq!(&pixels[STRIDE as usize..2 * STRIDE as usize], row);
}

#[test]
fn the_long_path_waits_for_every_description() {
    let mut app = App::new(TestMode::ChromePath, TransferTag::Srgb);
    assert_eq!(app.on_manager_done(), AppAction::Nothing);
    assert!(app.check_globals().is_err());
    for name in [
        "wl_compositor",
        "wl_shm",
        "wl_output",
        "xdg_wm_base",
        "wp_color_manager_v1",
    ] {
        assert_eq!(app.on_global(name, 1), Some(1));
    }
    assert_eq!(app.on_global("wl_output", 1), None);
    assert_eq!(app.on_manager_done(), AppAction::SetUpOutput);
    assert_eq!(app.check_globals(), Ok(()));
    assert_eq!(app.check_output(), Err(AppError::OutputPathIncomplete));
    assert!(!app.chrome_output_path_ready());
    assert_eq!(app.on_info_done(), AppAction::Nothing);
    assert!(app.chrome_output_path_ready());
    assert_eq!(app.check_output(), Ok(()));
    assert_eq!(app.create_window(), Err(AppError::NoImageDescription));
    assert_eq!(app.create_image_description(), Ok(NamedTransfer::Bt1886));
    app.on_image_ready(ReadyImage::Own);
    assert_eq!(app.create_window(), Ok(true));
    assert_eq!(app.on_configure(), AppAction::Nothing);
    assert_eq!(app.check_window(), Err(AppError::PreferredPathIncomplete));
    assert_eq!(app.on_info_done(), AppAction::Commit);
    assert!(app.chrome_preferred_path_ready());
    assert_eq!(app.check_window(), Ok(()));
    assert_eq!(app.on_preferred_changed(), AppAction::GetPreferred);
    assert!(!app.chrome_preferred_path_ready());
    assert_eq!(app.commit_if_ready(), Ok(false));
}
