use remote_print::lpr::{build_cmd, color_flags, job_cmd, media_flag, range_flag, sides_flag};
use remote_print::options::{ColorMode, PrintOpt};

#[test]
fn grayscale_a4_two_sided_with_ranges() {
    let opts = PrintOpt::new(2, true, false, Some("a4".to_string()), false, vec![1..=1, 3..=5])
        .unwrap();
    assert_eq!(range_flag(opts.range()), "-o page-ranges=1,3-5");
    assert_eq!(color_flags(opts.color_mode()), "-o 'ColorModel=Gray' -o 'ColorMode=False'");
    assert_eq!(sides_flag(opts.one_sided()), "-o sides=two-sided-long-edge");
    assert_eq!(media_flag(opts.media()), "-o media='a4'");
    assert_eq!(
        build_cmd("hall", &opts),
        "/usr/bin/lpr -P 'hall' -# 2 -o 'ColorModel=Gray' -o 'ColorMode=False' -o media='a4' \
         -o sides=two-sided-long-edge -o page-ranges=1,3-5"
    );
}

#[test]
fn empty_parts_keep_their_blank() {
    let opts = PrintOpt::new(1, false, false, None, false, vec![]).unwrap();
    assert_eq!(build_cmd("p", &opts), "/usr/bin/lpr -P 'p' -# 1   -o sides=two-sided-long-edge ");
}

#[test]
fn colour_and_one_side() {
    let opts = PrintOpt::new(10, false, true, None, true, vec![7..=7]).unwrap();
    assert_eq!(
        build_cmd("ed-6229-color3", &opts),
        "/usr/bin/lpr -P 'ed-6229-color3' -# 10 -o 'ColorModel=RGB' -o 'ColorMode=True'  \
         -o sides=one-sided -o page-ranges=7"
    );
}

#[test]
fn the_command_is_the_same_every_time() {
    let opts = PrintOpt::new(3, true, false, Some("a3".to_string()), true, vec![2..=14]).unwrap();
    let again = PrintOpt::new(3, true, false, Some("a3".to_string()), true, vec![2..=14]).unwrap();
    assert_eq!(build_cmd("p", &opts), build_cmd("p", &opts));
    assert_eq!(build_cmd("p", &opts), build_cmd("p", &again));
}

#[test]
fn colour_flags_by_mode() {
    assert_eq!(color_flags(Some(ColorMode::Color)), "-o 'ColorModel=RGB' -o 'ColorMode=True'");
    assert_eq!(
        color_flags(Some(ColorMode::BlackWhite)),
        "-o 'ColorModel=Gray' -o 'ColorMode=False'"
    );
    assert_eq!(color_flags(None), "");
}

#[test]
fn media_flag_only_with_a_size() {
    assert_eq!(media_flag(None), "");
    assert_eq!(media_flag(Some("letter")), "-o media='letter'");
    assert_eq!(media_flag(Some("")), "-o media=''");
}

#[test]
fn sides_flag_by_duplex() {
    assert_eq!(sides_flag(true), "-o sides=one-sided");
    assert_eq!(sides_flag(false), "-o sides=two-sided-long-edge");
}

#[test]
fn ranges_keep_their_order_and_are_not_merged() {
    assert_eq!(range_flag(&vec![]), "");
    assert_eq!(range_flag(&vec![5..=5]), "-o page-ranges=5");
    assert_eq!(range_flag(&vec![9..=12, 1..=3, 2..=2, 1..=3]), "-o page-ranges=9-12,1-3,2,1-3");
    assert_eq!(range_flag(&vec![0..=4294967295]), "-o page-ranges=0-4294967295");
}

#[test]
fn copies_are_written_in_base_ten() {
    for (copies, text) in [(1u32, "1"), (9, "9"), (10, "10"), (4294967295, "4294967295")] {
        let opts = PrintOpt::new(copies, false, false, None, true, vec![]).unwrap();
        assert_eq!(
            build_cmd("p", &opts),
            format!("/usr/bin/lpr -P 'p' -# {}   -o sides=one-sided ", text)
        );
    }
}

#[test]
fn names_are_quoted_but_not_escaped() {
    let opts = PrintOpt::new(1, false, false, Some("a'4".to_string()), true, vec![]).unwrap();
    assert_eq!(
        build_cmd("it's", &opts),
        "/usr/bin/lpr -P 'it's' -# 1  -o media='a'4' -o sides=one-sided "
    );
}

#[test]
fn the_job_command_adds_name_and_file() {
    assert_eq!(job_cmd("lpr -x", "German_Party", "printfile"), "lpr -x -J 'German_Party' printfile");
    assert_eq!(job_cmd("", "", ""), " -J '' ");
}
