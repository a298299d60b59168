//! The command line that asks the remote spooler to print.

use crate::options::{ColorMode, PrintOpt, PrintOptView};
use crate::text::{decimal, push_decimal};
use std::ops::RangeInclusive;
use vstd::prelude::*;
use vstd::string::*;

verus! {

/// The options that force a colour mode; nothing when none is forced.
pub open spec fn color_part(mode: Option<ColorMode>) -> Seq<char> {
    match mode {
        Some(ColorMode::Color) => "-o 'ColorModel=RGB' -o 'ColorMode=True'"@,
        Some(ColorMode::BlackWhite) => "-o 'ColorModel=Gray' -o 'ColorMode=False'"@,
        None => Seq::empty(),
    }
}

/// The option that names the paper size; nothing when none was given.
pub open spec fn media_part(media: Option<Seq<char>>) -> Seq<char> {
    match media {
        Some(size) => "-o media='"@ + size + "'"@,
        None => Seq::empty(),
    }
}

/// The option that chooses between one and two sides.
pub open spec fn sides_part(one_sided: bool) -> Seq<char> {
    if one_sided {
        "-o sides=one-sided"@
    } else {
        "-o sides=two-sided-long-edge"@
    }
}

/// One range: a single number where it covers one page, else `first-last`.
pub open spec fn range_text(r: (u32, u32)) -> Seq<char> {
    if r.0 == r.1 {
        decimal(r.0 as nat)
    } else {
        decimal(r.0 as nat) + "-"@ + decimal(r.1 as nat)
    }
}

/// The ranges in the order given, with a comma between neighbours.
pub open spec fn ranges_text(rs: Seq<(u32, u32)>) -> Seq<char>
    decreases rs.len(),
{
    if rs.len() == 0 {
        Seq::empty()
    } else if rs.len() == 1 {
        range_text(rs[0])
    } else {
        ranges_text(rs.drop_last()) + ","@ + range_text(rs.last())
    }
}

/// The option that lists the page ranges; nothing when there is none.
pub open spec fn range_part(rs: Seq<(u32, u32)>) -> Seq<char> {
    if rs.len() == 0 {
        Seq::empty()
    } else {
        "-o page-ranges="@ + ranges_text(rs)
    }
}

/// The whole command for `printer` and the options `o`, up to the job name.
/// The five parts after the copy count are each led by one blank, also where
/// a part is empty.
pub open spec fn command_line(printer: Seq<char>, o: PrintOptView) -> Seq<char> {
    "/usr/bin/lpr -P '"@ + printer + "' -# "@ + decimal(o.copies as nat) + " "@ + color_part(
        o.color_mode(),
    ) + " "@ + media_part(o.media) + " "@ + sides_part(o.one_sided) + " "@ + range_part(o.range)
}

/// The command of one job: the command line, the job's name in single
/// quotes, and the file to print.
pub open spec fn job_line(command: Seq<char>, job_name: Seq<char>, file: Seq<char>) -> Seq<char> {
    command + " -J '"@ + job_name + "' "@ + file
}

/// The options that force `mode`.
pub fn color_flags(mode: Option<ColorMode>) -> (s: &'static str)
    ensures
        s@ == color_part(mode),
{
    match mode {
        Some(ColorMode::Color) => "-o 'ColorModel=RGB' -o 'ColorMode=True'",
        Some(ColorMode::BlackWhite) => "-o 'ColorModel=Gray' -o 'ColorMode=False'",
        None => {
            proof {
                reveal_strlit("");
            }
            ""
        },
    }
}

/// The option that names the paper size `media`.
pub fn media_flag(media: Option<&str>) -> (s: String)
    ensures
        s@ == media_part(
            match media {
                Some(m) => Some(m@),
                None => None,
            },
        ),
{
    let mut out = String::new();
    match media {
        Some(size) => {
            out.append("-o media='");
            out.append(size);
            out.append("'");
        },
        None => {},
    }
    out
}

/// The option that chooses between one and two sides.
pub fn sides_flag(one_sided: bool) -> (s: &'static str)
    ensures
        s@ == sides_part(one_sided),
{
    if one_sided {
        "-o sides=one-sided"
    } else {
        "-o sides=two-sided-long-edge"
    }
}

/// The option that lists the page ranges.
pub fn range_flag(ranges: &Vec<RangeInclusive<u32>>) -> (s: String)
    ensures
        s@ == range_part(crate::options::range_bounds(ranges@)),
{
    let ghost rs = crate::options::range_bounds(ranges@);
    let mut out = String::new();
    if ranges.len() == 0 {
        return out;
    }
    out.append("-o page-ranges=");
    let ghost head = out@;
    let mut i: usize = 0;
    while i < ranges.len()
        invariant
            i <= ranges@.len(),
            rs == crate::options::range_bounds(ranges@),
            head == "-o page-ranges="@,
            out@ == head + ranges_text(rs.take(i as int)),
        decreases ranges@.len() - i,
    {
        let first: u32 = *ranges[i].start();
        let last: u32 = *ranges[i].end();
        assert(rs.take(i + 1).drop_last() == rs.take(i as int));
        if i > 0 {
            out.append(",");
        }
        push_decimal(&mut out, first);
        if first != last {
            out.append("-");
            push_decimal(&mut out, last);
        }
        i += 1;
    }
    assert(rs.take(i as int) == rs);
    out
}

/// Builds the command line that prints on `printer` with the options `opts`.
/// A command comes back only for options that force at most one colour mode:
/// for options that force both, none is ever built.
pub fn build_cmd(printer: &str, opts: &PrintOpt) -> (cmd: String)
    ensures
        cmd@ == command_line(printer@, opts@),
        !(opts@.color && opts@.grayscale),
{
    let mut out = String::new();
    out.append("/usr/bin/lpr -P '");
    out.append(printer);
    out.append("' -# ");
    push_decimal(&mut out, opts.copies());
    out.append(" ");
    out.append(color_flags(opts.color_mode()));
    out.append(" ");
    let media = media_flag(opts.media());
    out.append(media.as_str());
    out.append(" ");
    out.append(sides_flag(opts.one_sided()));
    out.append(" ");
    let ranges = range_flag(opts.range());
    out.append(ranges.as_str());
    out
}

/// Completes `command` for one job: adds the job's name and the file.
pub fn job_cmd(command: &str, job_name: &str, file: &str) -> (cmd: String)
    ensures
        cmd@ == job_line(command@, job_name@, file@),
{
    let mut out = String::new();
    out.append(command);
    out.append(" -J '");
    out.append(job_name);
    out.append("' ");
    out.append(file);
    out
}

} // verus!
