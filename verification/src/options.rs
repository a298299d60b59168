//! What the user asked for: the print options and the run's settings.

use crate::error::{Error, ErrorClass};
use crate::range::no_range;
use crate::text::{decimal, push_decimal};
use std::ops::RangeInclusive;
use vstd::prelude::*;
use vstd::string::*;

verus! {

/// How the pages are to be printed when the user forces one mode.
#[derive(Debug, Clone, Copy, PartialEq, Eq, Hash, Structural)]
pub enum ColorMode {
    Color,
    BlackWhite,
}

/// The first and the last page of each range, in the order given.
pub open spec fn range_bounds(ranges: Seq<RangeInclusive<u32>>) -> Seq<(u32, u32)> {
    Seq::new(ranges.len(), |i: int| (ranges[i]@.start, ranges[i]@.end))
}

/// `RangeInclusive::start` returns the lower bound of the range.
pub assume_specification<Idx>[ RangeInclusive::<Idx>::start ](r: &RangeInclusive<Idx>) -> (ret:
    &Idx)
    ensures
        *ret == r@.start,
;

/// `RangeInclusive::end` returns the upper bound of the range.
pub assume_specification<Idx>[ RangeInclusive::<Idx>::end ](r: &RangeInclusive<Idx>) -> (ret: &Idx)
    ensures
        *ret == r@.end,
;

/// The first position at or after `from` that holds a range which ends
/// before it begins; the number of ranges where there is none.
pub open spec fn backwards_from(ranges: Seq<(u32, u32)>, from: int) -> int
    decreases ranges.len() - from,
{
    if from < 0 || from >= ranges.len() {
        ranges.len() as int
    } else if ranges[from].0 > ranges[from].1 {
        from
    } else {
        backwards_from(ranges, from + 1)
    }
}

/// Whether every range begins no later than it ends.
pub open spec fn ordered(ranges: Seq<(u32, u32)>) -> bool {
    forall|i: int| 0 <= i < ranges.len() ==> (#[trigger] ranges[i]).0 <= ranges[i].1
}

/// Why options are refused, if they are: both colour modes forced, no copy
/// asked for, or a range that ends before it begins. Of several reasons the
/// first in this order is given, and of several such ranges the first.
pub open spec fn refusal(copies: u32, grayscale: bool, color: bool, ranges: Seq<(u32, u32)>) -> Option<
    Seq<char>,
> {
    if color && grayscale {
        Some("conflicting color modes"@)
    } else if copies == 0 {
        Some("copies must be positive"@)
    } else {
        let at = backwards_from(ranges, 0);
        if 0 <= at < ranges.len() {
            Some(no_range(decimal(ranges[at].0 as nat) + "-"@ + decimal(ranges[at].1 as nat)))
        } else {
            None
        }
    }
}

/// The print options as plain values.
pub struct PrintOptView {
    pub copies: u32,
    pub grayscale: bool,
    pub color: bool,
    pub media: Option<Seq<char>>,
    pub one_sided: bool,
    pub range: Seq<(u32, u32)>,
}

impl PrintOptView {
    /// What holds of all print options: at most one colour mode is forced,
    /// at least one copy is asked for, and every range begins no later than
    /// it ends.
    pub open spec fn wf(self) -> bool {
        &&& !(self.color && self.grayscale)
        &&& self.copies >= 1
        &&& ordered(self.range)
    }

    /// The forced colour mode, if there is one. Both flags at once have no
    /// meaning.
    pub open spec fn color_mode(self) -> Option<ColorMode> {
        if self.color {
            Some(ColorMode::Color)
        } else if self.grayscale {
            Some(ColorMode::BlackWhite)
        } else {
            None
        }
    }
}

/// How to print: copies, colour mode, paper size, duplex and page ranges.
/// A value never has both `color` and `grayscale` set, asks for at least one
/// copy, and holds no range that ends before it begins.
#[derive(Debug)]
pub struct PrintOpt {
    copies: u32,
    grayscale: bool,
    color: bool,
    media: Option<String>,
    one_sided: bool,
    range: Vec<RangeInclusive<u32>>,
}

impl View for PrintOpt {
    type V = PrintOptView;

    closed spec fn view(&self) -> PrintOptView {
        PrintOptView {
            copies: self.copies,
            grayscale: self.grayscale,
            color: self.color,
            media: match self.media {
                Some(m) => Some(m@),
                None => None,
            },
            one_sided: self.one_sided,
            range: range_bounds(self.range@),
        }
    }
}

impl PrintOpt {
    #[verifier::type_invariant]
    spec fn valid(self) -> bool {
        self@.wf()
    }

    /// Makes the options, or refuses them: when both colour and grayscale are
    /// forced, when no copy is asked for, or when a range ends before it
    /// begins.
    pub fn new(
        copies: u32,
        grayscale: bool,
        color: bool,
        media: Option<String>,
        one_sided: bool,
        range: Vec<RangeInclusive<u32>>,
    ) -> (r: Result<PrintOpt, Error>)
        ensures
            match r {
                Ok(o) => refusal(copies, grayscale, color, range_bounds(range@)) is None && o@.wf()
                    && o@ == (PrintOptView {
                    copies,
                    grayscale,
                    color,
                    media: match media {
                        Some(m) => Some(m@),
                        None => None,
                    },
                    one_sided,
                    range: range_bounds(range@),
                }),
                Err(e) => e.class_of() == ErrorClass::Validation && refusal(
                    copies,
                    grayscale,
                    color,
                    range_bounds(range@),
                ) == Some(e.text()),
            },
    {
        if color && grayscale {
            return Err(Error::user("conflicting color modes"));
        }
        if copies == 0 {
            return Err(Error::user("copies must be positive"));
        }
        let ghost bounds = range_bounds(range@);
        let mut i: usize = 0;
        while i < range.len()
            invariant
                i <= range@.len(),
                !(color && grayscale),
                copies >= 1,
                bounds == range_bounds(range@),
                backwards_from(bounds, 0) == backwards_from(bounds, i as int),
                forall|j: int| 0 <= j < i ==> (#[trigger] bounds[j]).0 <= bounds[j].1,
            decreases range@.len() - i,
        {
            let first: u32 = *range[i].start();
            let last: u32 = *range[i].end();
            assert(bounds[i as int] == (first, last));
            if first > last {
                let mut message = String::new();
                message.append("could not parse \"");
                push_decimal(&mut message, first);
                message.append("-");
                push_decimal(&mut message, last);
                message.append("\" as range.");
                assert(message@ =~= no_range(decimal(first as nat) + "-"@ + decimal(last as nat)));
                assert(backwards_from(bounds, 0) == i);
                return Err(Error::user(message.as_str()));
            }
            i += 1;
        }
        Ok(PrintOpt { copies, grayscale, color, media, one_sided, range })
    }

    /// The number of copies.
    pub fn copies(&self) -> (n: u32)
        ensures
            n == self@.copies,
            n >= 1,
    {
        proof {
            use_type_invariant(self);
        }
        self.copies
    }

    /// The forced colour mode, if there is one.
    pub fn color_mode(&self) -> (m: Option<ColorMode>)
        ensures
            m == self@.color_mode(),
            self@.wf(),
    {
        proof {
            use_type_invariant(self);
        }
        if self.color {
            Some(ColorMode::Color)
        } else if self.grayscale {
            Some(ColorMode::BlackWhite)
        } else {
            None
        }
    }

    /// The paper size, if one was given.
    pub fn media(&self) -> (m: Option<&str>)
        ensures
            m is Some == self@.media is Some,
            m matches Some(s) ==> self@.media == Some(s@),
    {
        match &self.media {
            Some(s) => Some(s.as_str()),
            None => None,
        }
    }

    /// Whether only one side of the paper is printed.
    pub fn one_sided(&self) -> (b: bool)
        ensures
            b == self@.one_sided,
    {
        self.one_sided
    }

    /// The page ranges, in the order given.
    pub fn range(&self) -> (r: &Vec<RangeInclusive<u32>>)
        ensures
            range_bounds(r@) == self@.range,
            ordered(range_bounds(r@)),
    {
        proof {
            use_type_invariant(self);
        }
        &self.range
    }
}

/// The settings of a run as plain values.
pub struct OptView {
    pub debug: bool,
    pub print_opts: PrintOptView,
    pub printer: Option<Seq<char>>,
    pub files: Seq<Seq<char>>,
}

/// The settings of a run: whether the print itself is skipped, how to
/// print, on which printer if the user named one, and the files to print.
#[derive(Debug)]
pub struct Opt {
    debug: bool,
    print_opts: PrintOpt,
    printer: Option<String>,
    files: Vec<String>,
}

impl View for Opt {
    type V = OptView;

    closed spec fn view(&self) -> OptView {
        OptView {
            debug: self.debug,
            print_opts: self.print_opts@,
            printer: match self.printer {
                Some(p) => Some(p@),
                None => None,
            },
            files: self.files.deep_view(),
        }
    }
}

impl Opt {
    /// Puts the settings of a run together.
    pub fn new(debug: bool, print_opts: PrintOpt, printer: Option<String>, files: Vec<String>) -> (o:
        Opt)
        ensures
            o@ == (OptView {
                debug,
                print_opts: print_opts@,
                printer: match printer {
                    Some(p) => Some(p@),
                    None => None,
                },
                files: files.deep_view(),
            }),
    {
        Opt { debug, print_opts, printer, files }
    }

    /// Whether the print itself is skipped and the command shown instead.
    pub fn debug(&self) -> (b: bool)
        ensures
            b == self@.debug,
    {
        self.debug
    }

    /// How to print.
    pub fn print_opts(&self) -> (o: &PrintOpt)
        ensures
            o@ == self@.print_opts,
            o@.wf(),
    {
        proof {
            use_type_invariant(&self.print_opts);
        }
        &self.print_opts
    }

    /// The printer the user named, if any.
    pub fn printer(&self) -> (p: Option<&str>)
        ensures
            p is Some == self@.printer is Some,
            p matches Some(s) ==> self@.printer == Some(s@),
    {
        match &self.printer {
            Some(s) => Some(s.as_str()),
            None => None,
        }
    }

    /// The number of files to print.
    pub fn file_count(&self) -> (n: usize)
        ensures
            n == self@.files.len(),
    {
        self.files.len()
    }

    /// The path of the file at `index`, if there is one.
    pub fn file(&self, index: usize) -> (f: Option<&str>)
        ensures
            match f {
                Some(path) => index < self@.files.len() && path@ == self@.files[index as int],
                None => index >= self@.files.len(),
            },
    {
        if index < self.files.len() {
            Some(self.files[index].as_str())
        } else {
            None
        }
    }
}

/// Options are refused exactly when they break what holds of all print
/// options.
pub proof fn lemma_refusal(copies: u32, grayscale: bool, color: bool, ranges: Seq<(u32, u32)>)
    ensures
        refusal(copies, grayscale, color, ranges) is None <==> !(color && grayscale) && copies >= 1
            && ordered(ranges),
{
    lemma_backwards_from(ranges, 0);
}

/// Where the search for a range that ends before it begins stops: at such a
/// range with none before it, or behind the last range when there is none.
pub proof fn lemma_backwards_from(ranges: Seq<(u32, u32)>, from: int)
    requires
        0 <= from <= ranges.len(),
    ensures
        from <= backwards_from(ranges, from) <= ranges.len(),
        forall|i: int|
            from <= i < backwards_from(ranges, from) ==> (#[trigger] ranges[i]).0 <= ranges[i].1,
        backwards_from(ranges, from) < ranges.len() ==> ranges[backwards_from(ranges, from)].0
            > ranges[backwards_from(ranges, from)].1,
    decreases ranges.len() - from,
{
    if from < ranges.len() && ranges[from].0 <= ranges[from].1 {
        lemma_backwards_from(ranges, from + 1);
    }
}

} // verus!
