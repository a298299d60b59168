use remote_print::error::{Error, ErrorClass};
use remote_print::options::{ColorMode, Opt, PrintOpt};

#[test]
fn colour_and_grayscale_together_are_refused() {
    let made = PrintOpt::new(1, true, true, None, false, vec![]);
    match made {
        Err(e) => {
            assert_eq!(e, Error::UserError("conflicting color modes".to_string()));
            assert_eq!(e.class(), ErrorClass::Validation);
        }
        Ok(_) => panic!("conflicting colour modes were accepted"),
    }
}

#[test]
fn no_copies_are_refused() {
    let made = PrintOpt::new(0, false, false, None, false, vec![]);
    match made {
        Err(e) => {
            assert_eq!(e, Error::UserError("copies must be positive".to_string()));
            assert_eq!(e.class(), ErrorClass::Validation);
        }
        Ok(_) => panic!("no copies were accepted"),
    }
    assert!(PrintOpt::new(1, false, false, None, false, vec![]).is_ok());
}

#[test]
fn a_range_that_runs_backwards_is_refused() {
    let made = PrintOpt::new(1, false, false, None, false, vec![1..=3, 14..=2, 9..=8]);
    match made {
        Err(e) => {
            assert_eq!(e, Error::UserError("could not parse \"14-2\" as range.".to_string()));
            assert_eq!(e.class(), ErrorClass::Validation);
        }
        Ok(_) => panic!("a backwards range was accepted"),
    }
    assert!(PrintOpt::new(1, false, false, None, false, vec![2..=2, 0..=4294967295]).is_ok());
}

#[test]
fn of_several_reasons_the_first_is_given() {
    let all = PrintOpt::new(0, true, true, None, false, vec![2..=1]);
    assert_eq!(all.err(), Some(Error::UserError("conflicting color modes".to_string())));
    let two = PrintOpt::new(0, true, false, None, false, vec![2..=1]);
    assert_eq!(two.err(), Some(Error::UserError("copies must be positive".to_string())));
    let one = PrintOpt::new(3, true, false, None, false, vec![2..=1]);
    assert_eq!(one.err(), Some(Error::UserError("could not parse \"2-1\" as range.".to_string())));
}

#[test]
fn the_options_are_kept_as_given() {
    let opts = PrintOpt::new(4, false, true, Some("a5".to_string()), true, vec![2..=14, 3..=3])
        .unwrap();
    assert_eq!(opts.copies(), 4);
    assert_eq!(opts.color_mode(), Some(ColorMode::Color));
    assert_eq!(opts.media(), Some("a5"));
    assert!(opts.one_sided());
    assert_eq!(opts.range(), &vec![2..=14, 3..=3]);
}

#[test]
fn the_colour_mode_follows_the_flags() {
    let gray = PrintOpt::new(1, true, false, None, false, vec![]).unwrap();
    let colour = PrintOpt::new(1, false, true, None, false, vec![]).unwrap();
    let neither = PrintOpt::new(1, false, false, None, false, vec![]).unwrap();
    assert_eq!(gray.color_mode(), Some(ColorMode::BlackWhite));
    assert_eq!(colour.color_mode(), Some(ColorMode::Color));
    assert_eq!(neither.color_mode(), None);
    assert_eq!(neither.media(), None);
}

#[test]
fn the_settings_of_a_run_are_kept_as_given() {
    let opts = PrintOpt::new(1, false, false, None, false, vec![]).unwrap();
    let opt = Opt::new(true, opts, Some("p".to_string()), vec!["a.pdf".to_string()]);
    assert!(opt.debug());
    assert_eq!(opt.printer(), Some("p"));
    assert_eq!(opt.file_count(), 1);
    assert_eq!(opt.file(0), Some("a.pdf"));
    assert_eq!(opt.file(1), None);
    assert_eq!(opt.print_opts().copies(), 1);
}
