//! Reporting which pages of files are resident in the page cache.

use vstd::prelude::*;
use vstd::string::*;
use crate::error::Error;
use crate::filesystem::{
    cached_hundredths, indices_of, lemma_count_resident_bounded, resident_indices,
    resident_pages, FincoreStats,
};
use crate::regions::{bucket_percentages, bucketize, percentages_of};
use crate::text::{
    decimal, decimal_digits, digit_char, left_justified, lemma_decimal_digits_len, lines_of,
    pad_left, pad_right, push_line, push_lines, repeat, repeated, right_justified,
};

verus! {

/// The number of display regions when the width of the terminal is not
/// known.
pub const DEFAULT_NR_REGIONS: usize = 160;

/// The number of display regions that fit a terminal of `columns` columns:
/// the even part of the width less ten columns for the frame. A terminal
/// that leaves no region has none.
pub open spec fn regions_for(columns: Option<u16>) -> Option<usize> {
    match columns {
        None => Some(DEFAULT_NR_REGIONS),
        Some(columns) => if columns >= 12 {
            Some(((columns / 2) * 2 - 10) as usize)
        } else {
            None
        },
    }
}

/// The number of display regions for a terminal of `columns` columns, or for
/// an unknown terminal. A terminal too narrow for a single region is refused.
pub fn nr_regions(columns: Option<u16>) -> (r: Result<usize, Error>)
    ensures
        match regions_for(columns) {
            Some(regions) => r == Ok::<usize, Error>(regions) && regions > 0,
            None => r == Err::<usize, Error>(Error::InvalidArgument),
        },
{
    match columns {
        None => Ok(DEFAULT_NR_REGIONS),
        Some(columns) => {
            if columns >= 12 {
                let even: u16 = (columns / 2) * 2;
                Ok((even - 10) as usize)
            } else {
                Err(Error::InvalidArgument)
            }
        },
    }
}

/// Asks `termsize::get` for the size of the terminal on standard output and
/// keeps its number of columns. Nothing is claimed of the answer: it depends
/// on the terminal, and there may be none.
#[verifier::external_body]
fn terminal_columns() -> (columns: Option<u16>) {
    termsize::get().map(|size| size.cols)
}

/// The number of display regions for the terminal on standard output.
pub fn detect_nr_regions() -> (r: Result<usize, Error>)
    ensures
        exists|columns: Option<u16>|
            match #[trigger] regions_for(columns) {
                Some(regions) => r == Ok::<usize, Error>(regions) && regions > 0,
                None => r == Err::<usize, Error>(Error::InvalidArgument),
            },
{
    nr_regions(terminal_columns())
}

/// Whether `cached_pages` of `total_pages` pages are less than
/// `min_hundredths` hundredths of a percent of them.
pub open spec fn below_percentage(cached_pages: nat, total_pages: nat, min_hundredths: nat) -> bool {
    cached_pages * 10000 < min_hundredths * total_pages
}

/// What to report of files, and of which files.
#[derive(Debug)]
pub struct Fincore {
    /// Whether the cached bytes of all files shown are summed up at the end.
    pub summarize: bool,
    /// Whether the indices of the resident pages are listed.
    pub pages: bool,
    /// Whether files without any cached byte are left out.
    pub only_cached: bool,
    /// Whether the spread of the resident pages over the file is drawn.
    pub graph: bool,
    /// Only files larger than this many bytes are shown.
    pub min_size: Option<u64>,
    /// Only files with more than this many cached bytes are shown.
    pub min_cached_size: Option<u64>,
    /// Only files of which at least this share is cached are shown, in
    /// hundredths of a percent.
    pub min_perc_cached: Option<u64>,
    /// Whether each statistic gets a line of its own.
    pub vertical: bool,
    /// The paths of the files.
    pub files: Vec<String>,
}

/// What to print for one file.
#[derive(Debug)]
pub struct FileReport {
    /// The indices of the resident pages to list before anything else.
    pub resident: Vec<usize>,
    /// Whether the file's statistics are printed.
    pub shown: bool,
    /// Whether the column headers precede the statistics.
    pub headers: bool,
    /// The percentages of the display regions, where the histogram is drawn.
    pub regions: Option<Vec<u64>>,
    /// What the file adds to the sum of cached bytes.
    pub cached_bytes: u64,
}

impl Fincore {
    /// Whether the filters leave a file with these statistics out.
    pub open spec fn filters(&self, stats: &FincoreStats) -> bool {
        ||| (self.min_size matches Some(min_size) && stats.file_bytes <= min_size)
        ||| (self.min_cached_size matches Some(min_cached_size) && stats.cached_bytes
            <= min_cached_size)
        ||| (self.min_perc_cached matches Some(min_perc_cached) && below_percentage(
            stats.cached_pages as nat,
            stats.total_pages as nat,
            min_perc_cached as nat,
        ))
        ||| (self.only_cached && stats.cached_bytes == 0)
    }

    /// Whether the statistics of a file are printed: those of a file with
    /// content that the filters do not leave out.
    pub open spec fn shows(&self, stats: &FincoreStats) -> bool {
        stats.file_bytes != 0 && !self.filters(stats)
    }

    /// Whether the filters leave a file with these statistics out.
    pub fn is_filtered(&self, stats: &FincoreStats) -> (filtered: bool)
        ensures
            filtered == self.filters(stats),
    {
        if let Some(min_size) = self.min_size {
            if stats.file_bytes <= min_size {
                return true;
            }
        }
        if let Some(min_cached_size) = self.min_cached_size {
            if stats.cached_bytes <= min_cached_size {
                return true;
            }
        }
        if let Some(min_perc_cached) = self.min_perc_cached {
            let cached: u128 = (stats.cached_pages as u128) * 10000;
            assert(min_perc_cached * stats.total_pages <= u128::MAX) by (nonlinear_arith)
                requires
                    min_perc_cached <= u64::MAX,
                    stats.total_pages <= u64::MAX,
            ;
            let wanted: u128 = (min_perc_cached as u128) * (stats.total_pages as u128);
            if cached < wanted {
                return true;
            }
        }
        self.only_cached && stats.cached_bytes == 0
    }

    /// Whether the statistics of a file are printed.
    pub fn is_shown(&self, stats: &FincoreStats) -> (shown: bool)
        ensures
            shown == self.shows(stats),
    {
        stats.file_bytes != 0 && !self.is_filtered(stats)
    }

    /// Decides what to print for a file with these statistics, with
    /// `nr_regions` display regions at hand.
    ///
    /// The resident pages are listed where that is asked for, whether or not
    /// the statistics follow. The statistics follow for a file that `shows`
    /// holds of; only such a file adds to the sum of cached bytes. The
    /// histogram is drawn where it is asked for and the file has more pages
    /// than there are regions.
    pub fn fincore(&self, stats: &FincoreStats, nr_regions: usize) -> (report: FileReport)
        requires
            nr_regions > 0,
            stats.consistent(),
        ensures
            report.shown == self.shows(stats),
            report.headers == (self.shows(stats) && self.graph),
            report.cached_bytes == if self.shows(stats) {
                stats.cached_bytes
            } else {
                0
            },
            indices_of(report.resident@) == if self.pages && stats.file_bytes != 0 {
                resident_indices(stats.pages@)
            } else {
                Seq::empty()
            },
            report.regions is Some <==> self.shows(stats) && self.graph && stats.total_pages
                > nr_regions,
            report.regions matches Some(shares) ==> percentages_of(shares@) == bucket_percentages(
                stats.pages@,
                nr_regions as int,
            ),
    {
        if stats.file_bytes == 0 {
            let resident: Vec<usize> = Vec::new();
            assert(indices_of(resident@) =~= Seq::<int>::empty());
            return FileReport { resident, shown: false, headers: false, regions: None, cached_bytes: 0 };
        }
        let resident: Vec<usize> = if self.pages {
            resident_pages(&stats.pages)
        } else {
            Vec::new()
        };
        assert(!self.pages ==> indices_of(resident@) =~= Seq::<int>::empty());
        if self.is_filtered(stats) {
            return FileReport { resident, shown: false, headers: false, regions: None, cached_bytes: 0 };
        }
        let regions: Option<Vec<u64>> = if self.graph && stats.total_pages > nr_regions as u64 {
            Some(bucketize(&stats.pages, nr_regions))
        } else {
            None
        };
        FileReport {
            resident,
            shown: true,
            headers: self.graph,
            regions,
            cached_bytes: stats.cached_bytes,
        }
    }
}

/// The width of the column of file names.
pub const NAME_WIDTH: usize = 80;

/// The width of each column of numbers.
pub const NUMBER_WIDTH: usize = 18;

/// One column of numbers: a space, and the text at the right of the column.
pub open spec fn cell(text: Seq<char>) -> Seq<char> {
    seq![' '] + right_justified(text, NUMBER_WIDTH as nat)
}

/// One line of the table: the name at the left of its column, then the five
/// columns of numbers.
pub open spec fn table_line(
    name: Seq<char>,
    size: Seq<char>,
    total_pages: Seq<char>,
    cached_pages: Seq<char>,
    cached_size: Seq<char>,
    cached_perc: Seq<char>,
) -> Seq<char> {
    left_justified(name, NAME_WIDTH as nat) + cell(size) + cell(total_pages) + cell(cached_pages)
        + cell(cached_size) + cell(cached_perc)
}

/// A share given in hundredths of a percent, written in percent with two
/// decimal places.
pub open spec fn percent_text(hundredths: nat) -> Seq<char> {
    decimal_digits(hundredths / 100) + seq![
        '.',
        digit_char(hundredths % 100 / 10),
        digit_char(hundredths % 10),
    ]
}

/// The two lines above the table: the names of the columns, and a rule under
/// each of them.
pub open spec fn header_lines() -> Seq<Seq<char>> {
    seq![
        table_line(
            "filename"@,
            "size"@,
            "total_pages"@,
            "cached_pages"@,
            "cached_size"@,
            "cached_perc"@,
        ),
        table_line(
            "--------"@,
            "----"@,
            "-----------"@,
            "------------"@,
            "-----------"@,
            "-----------"@,
        ),
    ]
}

/// The statistics of the file at `path` as one line of the table.
pub open spec fn table_row(path: Seq<char>, stats: &FincoreStats) -> Seq<char> {
    table_line(
        path,
        decimal_digits(stats.file_bytes as nat),
        decimal_digits(stats.total_pages as nat),
        decimal_digits(stats.cached_pages as nat),
        decimal_digits(stats.cached_bytes as nat),
        percent_text(cached_hundredths(stats.cached_pages as nat, stats.total_pages as nat)),
    )
}

/// The statistics of the file at `path`, each on a line of its own under the
/// path.
pub open spec fn vertical_lines(path: Seq<char>, stats: &FincoreStats) -> Seq<Seq<char>> {
    seq![
        path,
        "size: "@ + decimal_digits(stats.file_bytes as nat),
        "total pages: "@ + decimal_digits(stats.total_pages as nat),
        "cached: "@ + decimal_digits(stats.cached_pages as nat),
        "cached_size: "@ + decimal_digits(stats.cached_bytes as nat),
        "cached_perc: "@ + percent_text(
            cached_hundredths(stats.cached_pages as nat, stats.total_pages as nat),
        ) + "%"@,
    ]
}

/// The page indices `indices`, each followed by a space.
pub open spec fn pages_text(indices: Seq<int>) -> Seq<char>
    decreases indices.len(),
{
    if indices.len() == 0 {
        Seq::empty()
    } else {
        pages_text(indices.drop_last()) + decimal_digits(indices.last() as nat) + seq![' ']
    }
}

/// The two lines that close a report with the sum of the cached bytes.
pub open spec fn summary_lines(total_cached_bytes: nat) -> Seq<Seq<char>> {
    seq!["---"@, "total cached size: "@ + decimal_digits(total_cached_bytes)]
}

/// Adds one column of numbers to `line`.
fn push_cell(line: &mut String, text: &str)
    ensures
        final(line)@ == old(line)@ + cell(text@),
{
    proof {
        reveal_strlit(" ");
    }
    let padded: String = pad_left(text, NUMBER_WIDTH);
    line.append(" ");
    line.append(padded.as_str());
    assert(line@ =~= old(line)@ + cell(text@));
}

/// Lays out one line of the table.
pub fn format_line(
    name: &str,
    size: &str,
    total_pages: &str,
    cached_pages: &str,
    cached_size: &str,
    cached_perc: &str,
) -> (line: String)
    ensures
        line@ == table_line(name@, size@, total_pages@, cached_pages@, cached_size@, cached_perc@),
{
    let mut line: String = pad_right(name, NAME_WIDTH);
    push_cell(&mut line, size);
    push_cell(&mut line, total_pages);
    push_cell(&mut line, cached_pages);
    push_cell(&mut line, cached_size);
    push_cell(&mut line, cached_perc);
    line
}

/// The two lines above the table.
pub fn show_headers() -> (lines: Vec<String>)
    ensures
        lines_of(lines@) == header_lines(),
{
    let mut lines: Vec<String> = Vec::new();
    push_line(
        &mut lines,
        format_line("filename", "size", "total_pages", "cached_pages", "cached_size", "cached_perc"),
    );
    push_line(
        &mut lines,
        format_line("--------", "----", "-----------", "------------", "-----------", "-----------"),
    );
    assert(lines_of(lines@) =~= header_lines());
    lines
}

/// Writes a share given in hundredths of a percent in percent, with two
/// decimal places.
pub fn format_percent(hundredths: u64) -> (text: String)
    ensures
        text@ == percent_text(hundredths as nat),
{
    proof {
        reveal_strlit(".");
        lemma_decimal_digits_len((hundredths % 100 / 10) as nat);
        lemma_decimal_digits_len((hundredths % 10) as nat);
    }
    let mut text: String = decimal((hundredths / 100) as u128);
    text.append(".");
    let tens: String = decimal((hundredths % 100 / 10) as u128);
    let ones: String = decimal((hundredths % 10) as u128);
    text.append(tens.as_str());
    text.append(ones.as_str());
    assert(text@ =~= percent_text(hundredths as nat));
    text
}

/// The statistics of the file at `path` as one line of the table.
pub fn format_row(path: &str, stats: &FincoreStats) -> (line: String)
    requires
        stats.cached_pages <= stats.total_pages,
    ensures
        line@ == table_row(path@, stats),
{
    let size: String = decimal(stats.file_bytes as u128);
    let total_pages: String = decimal(stats.total_pages as u128);
    let cached_pages: String = decimal(stats.cached_pages as u128);
    let cached_size: String = decimal(stats.cached_bytes as u128);
    let cached_perc: String = format_percent(stats.cached_percent());
    format_line(
        path,
        size.as_str(),
        total_pages.as_str(),
        cached_pages.as_str(),
        cached_size.as_str(),
        cached_perc.as_str(),
    )
}

/// A label and a number on one line.
fn labelled(label: &str, number: u128) -> (line: String)
    ensures
        line@ == label@ + decimal_digits(number as nat),
{
    let mut line: String = label.to_owned();
    let digits: String = decimal(number);
    line.append(digits.as_str());
    line
}

/// The statistics of the file at `path`, each on a line of its own.
pub fn format_vertical(path: &str, stats: &FincoreStats) -> (lines: Vec<String>)
    requires
        stats.cached_pages <= stats.total_pages,
    ensures
        lines_of(lines@) == vertical_lines(path@, stats),
{
    let mut lines: Vec<String> = Vec::new();
    push_line(&mut lines, path.to_owned());
    push_line(&mut lines, labelled("size: ", stats.file_bytes as u128));
    push_line(&mut lines, labelled("total pages: ", stats.total_pages as u128));
    push_line(&mut lines, labelled("cached: ", stats.cached_pages as u128));
    push_line(&mut lines, labelled("cached_size: ", stats.cached_bytes as u128));
    let mut share: String = "cached_perc: ".to_owned();
    let percent: String = format_percent(stats.cached_percent());
    share.append(percent.as_str());
    share.append("%");
    push_line(&mut lines, share);
    assert(lines_of(lines@) =~= vertical_lines(path@, stats));
    lines
}

/// Lists page indices on one line, a space behind each.
pub fn format_pages(indices: &Vec<usize>) -> (line: String)
    ensures
        line@ == pages_text(indices_of(indices@)),
{
    proof {
        reveal_strlit(" ");
    }
    let mut line: String = String::new();
    let mut i: usize = 0;
    while i < indices.len()
        invariant
            i <= indices@.len(),
            line@ == pages_text(indices_of(indices@).take(i as int)),
            " "@ == seq![' '],
        decreases indices@.len() - i,
    {
        assert(indices_of(indices@).take(i + 1).drop_last() =~= indices_of(indices@).take(
            i as int,
        ));
        let digits: String = decimal(indices[i] as u128);
        line.append(digits.as_str());
        line.append(" ");
        i = i + 1;
        assert(line@ =~= pages_text(indices_of(indices@).take(i as int)));
    }
    assert(indices_of(indices@).take(i as int) =~= indices_of(indices@));
    line
}

/// The two lines that close a report with the sum of the cached bytes.
pub fn format_summary(total_cached_bytes: u128) -> (lines: Vec<String>)
    ensures
        lines_of(lines@) == summary_lines(total_cached_bytes as nat),
{
    let mut lines: Vec<String> = Vec::new();
    push_line(&mut lines, "---".to_owned());
    push_line(&mut lines, labelled("total cached size: ", total_cached_bytes));
    assert(lines_of(lines@) =~= summary_lines(total_cached_bytes as nat));
    lines
}

/// The number of rows of the histogram, each a band of ten percent.
pub const GRAPH_ROWS: usize = 10;

/// The percentage that the band of `row` is labelled with; row 0 is the
/// topmost band.
pub open spec fn band_label(row: int) -> int {
    100 - 10 * row
}

/// The lowest percentage of the band of `row`: nine under its label, so that
/// the bands are 91 to 100, 81 to 90, and so on down to 1 to 10.
pub open spec fn band_floor(row: int) -> int {
    band_label(row) - 9
}

/// Whether a region of which `share` percent are resident is marked in the
/// band of `row`: its share reaches the lowest percentage of the band, and is
/// at least one percent.
pub open spec fn is_marked(share: int, row: int) -> bool {
    share >= 1 && share >= band_floor(row)
}

/// The marks of a region form a column that stands on the lowest band: a
/// region marked in one band is marked in every band below it, and a region
/// of which less than one percent is resident is marked in none.
pub proof fn lemma_marks_reach_down(share: int, row: int, below: int)
    requires
        row <= below,
    ensures
        is_marked(share, row) ==> is_marked(share, below),
        share < 1 ==> !is_marked(share, row),
{
}

/// The marks of all regions in the band of `row`.
pub open spec fn graph_marks(shares: Seq<nat>, row: int) -> Seq<char> {
    Seq::new(
        shares.len(),
        |b: int|
            if is_marked(shares[b] as int, row) {
                '*'
            } else {
                ' '
            },
    )
}

/// The line of the band of `row`: its label, the marks, and the frame.
pub open spec fn graph_row(shares: Seq<nat>, row: int) -> Seq<char> {
    right_justified(decimal_digits(band_label(row) as nat), 4) + " % "@ + graph_marks(shares, row)
        + " | "@
}

/// The rule above and below the histogram of `nr_regions` regions.
pub open spec fn graph_border(nr_regions: nat) -> Seq<char> {
    " ------"@ + repeated('-', nr_regions)
}

/// The lines of the histogram: an empty line, the rule, the bands from the
/// highest to the lowest, the rule, an empty line.
pub open spec fn graph_lines(shares: Seq<nat>) -> Seq<Seq<char>> {
    seq![Seq::empty(), graph_border(shares.len())] + Seq::new(
        GRAPH_ROWS as nat,
        |row: int| graph_row(shares, row),
    ) + seq![graph_border(shares.len()), Seq::empty()]
}

/// Whether a region of which `share` percent are resident is marked in the
/// band of `row`.
pub fn marked(share: u64, row: usize) -> (mark: bool)
    ensures
        mark == is_marked(share as int, row as int),
{
    if row >= 9 {
        share >= 1
    } else {
        let floor: u64 = 91 - 10 * (row as u64);
        share >= floor
    }
}

/// Draws the rule above and below the histogram of `nr_regions` regions.
pub fn graph_header(nr_regions: usize) -> (line: String)
    ensures
        line@ == graph_border(nr_regions as nat),
{
    proof {
        reveal_strlit("-");
    }
    let mut line: String = " ------".to_owned();
    let rule: String = repeat("-", nr_regions);
    line.append(rule.as_str());
    line
}

/// Draws the band of `row`.
fn graph_band(shares: &Vec<u64>, row: usize) -> (line: String)
    requires
        row < GRAPH_ROWS,
    ensures
        line@ == graph_row(percentages_of(shares@), row as int),
{
    proof {
        reveal_strlit("*");
        reveal_strlit(" ");
    }
    let label: String = decimal((100 - 10 * (row as u64)) as u128);
    let mut line: String = pad_left(label.as_str(), 4);
    line.append(" % ");
    let ghost head = line@;
    let mut b: usize = 0;
    while b < shares.len()
        invariant
            b <= shares@.len(),
            row < GRAPH_ROWS,
            "*"@ == seq!['*'],
            " "@ == seq![' '],
            line@ == head + graph_marks(percentages_of(shares@).take(b as int), row as int),
        decreases shares@.len() - b,
    {
        if marked(shares[b], row) {
            line.append("*");
        } else {
            line.append(" ");
        }
        b = b + 1;
        assert(line@ =~= head + graph_marks(percentages_of(shares@).take(b as int), row as int));
    }
    assert(percentages_of(shares@).take(b as int) =~= percentages_of(shares@));
    line.append(" | ");
    line
}

/// Draws the histogram of the regions whose percentages are `shares`.
pub fn graph(shares: &Vec<u64>) -> (lines: Vec<String>)
    ensures
        lines_of(lines@) == graph_lines(percentages_of(shares@)),
{
    let mut lines: Vec<String> = Vec::new();
    push_line(&mut lines, String::new());
    push_line(&mut lines, graph_header(shares.len()));
    let ghost head = lines_of(lines@);
    let mut row: usize = 0;
    while row < GRAPH_ROWS
        invariant
            row <= GRAPH_ROWS,
            lines_of(lines@) == head + Seq::new(
                row as nat,
                |r: int| graph_row(percentages_of(shares@), r),
            ),
        decreases GRAPH_ROWS - row,
    {
        push_line(&mut lines, graph_band(shares, row));
        row = row + 1;
        assert(lines_of(lines@) =~= head + Seq::new(
            row as nat,
            |r: int| graph_row(percentages_of(shares@), r),
        ));
    }
    push_line(&mut lines, graph_header(shares.len()));
    push_line(&mut lines, String::new());
    assert(lines_of(lines@) =~= graph_lines(percentages_of(shares@)));
    lines
}

impl Fincore {
    /// The lines of the report for the file at `path`: the list of its
    /// resident pages where that is asked for and there are any; then, for a
    /// file that `shows` holds of, the column headers where a histogram is
    /// asked for, the statistics, and the histogram where the file has more
    /// pages than there are regions.
    pub open spec fn file_lines(
        &self,
        path: Seq<char>,
        stats: &FincoreStats,
        nr_regions: int,
    ) -> Seq<Seq<char>> {
        let listed: Seq<Seq<char>> = if self.pages && stats.file_bytes != 0 && resident_indices(
            stats.pages@,
        ).len() > 0 {
            seq![pages_text(resident_indices(stats.pages@))]
        } else {
            Seq::empty()
        };
        let headers: Seq<Seq<char>> = if self.graph {
            header_lines()
        } else {
            Seq::empty()
        };
        let statistics: Seq<Seq<char>> = if self.vertical {
            vertical_lines(path, stats)
        } else {
            seq![table_row(path, stats)]
        };
        let histogram: Seq<Seq<char>> = if self.graph && stats.total_pages > nr_regions {
            graph_lines(bucket_percentages(stats.pages@, nr_regions))
        } else {
            Seq::empty()
        };
        if self.shows(stats) {
            listed + headers + statistics + histogram
        } else {
            listed
        }
    }

    /// Lays out the report for the file at `path`.
    pub fn render(&self, path: &str, stats: &FincoreStats, nr_regions: usize) -> (lines: Vec<
        String,
    >)
        requires
            nr_regions > 0,
            stats.consistent(),
        ensures
            lines_of(lines@) == self.file_lines(path@, stats, nr_regions as int),
    {
        proof {
            lemma_count_resident_bounded(stats.pages@);
        }
        let report: FileReport = self.fincore(stats, nr_regions);
        let mut lines: Vec<String> = Vec::new();
        assert(lines_of(lines@) =~= Seq::<Seq<char>>::empty());
        if report.resident.len() > 0 {
            push_line(&mut lines, format_pages(&report.resident));
        }
        let ghost listed = lines_of(lines@);
        if report.shown {
            if report.headers {
                push_lines(&mut lines, show_headers());
            }
            if self.vertical {
                push_lines(&mut lines, format_vertical(path, stats));
            } else {
                push_line(&mut lines, format_row(path, stats));
            }
            match &report.regions {
                Some(shares) => {
                    push_lines(&mut lines, graph(shares));
                },
                None => {},
            }
        }
        assert(lines_of(lines@) =~= self.file_lines(path@, stats, nr_regions as int));
        lines
    }
}

impl Fincore {
    /// What a file adds to the sum of cached bytes: its cached bytes if its
    /// statistics are known and shown, and nothing otherwise.
    pub open spec fn contribution(&self, stats: Option<FincoreStats>) -> nat {
        match stats {
            Some(stats) => if self.shows(&stats) {
                stats.cached_bytes as nat
            } else {
                0
            },
            None => 0,
        }
    }

    /// The sum of the cached bytes of the files shown.
    pub open spec fn total_cached(&self, stats: Seq<Option<FincoreStats>>) -> nat
        decreases stats.len(),
    {
        if stats.len() == 0 {
            0
        } else {
            self.total_cached(stats.drop_last()) + self.contribution(stats.last())
        }
    }

    /// The lines of the report for one file of the list: those of the file
    /// where its statistics are known, and none where they could not be had.
    pub open spec fn entry_lines(
        &self,
        path: Seq<char>,
        stats: Option<FincoreStats>,
        nr_regions: int,
    ) -> Seq<Seq<char>> {
        match stats {
            Some(known) => self.file_lines(path, &known, nr_regions),
            None => Seq::empty(),
        }
    }

    /// The lines that open the report: the column headers, unless each file
    /// gets its own for its histogram.
    pub open spec fn opening_lines(&self) -> Seq<Seq<char>> {
        if self.graph {
            Seq::empty()
        } else {
            header_lines()
        }
    }

    /// The lines that close the report after files whose cached bytes add up
    /// to `total`: the summary, where it is asked for.
    pub open spec fn closing_lines(&self, total: nat) -> Seq<Seq<char>> {
        if self.summarize {
            summary_lines(total)
        } else {
            Seq::empty()
        }
    }

    /// The lines of the report for the first files of the list, one file
    /// after the other: `stats` holds the statistics of each of them, or
    /// nothing where they could not be had.
    pub open spec fn files_lines(
        &self,
        stats: Seq<Option<FincoreStats>>,
        nr_regions: int,
    ) -> Seq<Seq<char>>
        decreases stats.len(),
    {
        if stats.len() == 0 {
            Seq::empty()
        } else {
            self.files_lines(stats.drop_last(), nr_regions) + self.entry_lines(
                self.files@[stats.len() - 1]@,
                stats.last(),
                nr_regions,
            )
        }
    }

    /// The lines of the whole report: the opening lines; the files in the
    /// order of the list; and the closing lines for the sum of the cached
    /// bytes of the files shown.
    pub open spec fn run_lines(
        &self,
        stats: Seq<Option<FincoreStats>>,
        nr_regions: int,
    ) -> Seq<Seq<char>> {
        self.opening_lines() + self.files_lines(stats, nr_regions) + self.closing_lines(
            self.total_cached(stats),
        )
    }

    /// The sum of the cached bytes of the files shown stays below the number
    /// of files times the largest count of bytes.
    proof fn lemma_total_cached_bounded(&self, stats: Seq<Option<FincoreStats>>)
        ensures
            self.total_cached(stats) <= stats.len() * u64::MAX,
        decreases stats.len(),
    {
        if stats.len() > 0 {
            self.lemma_total_cached_bounded(stats.drop_last());
            assert((stats.len() - 1) * u64::MAX + u64::MAX == stats.len() * u64::MAX)
                by (nonlinear_arith);
        }
    }

    /// Opens the report.
    pub fn begin(&self) -> (lines: Vec<String>)
        ensures
            lines_of(lines@) == self.opening_lines(),
    {
        if self.graph {
            let lines: Vec<String> = Vec::new();
            assert(lines_of(lines@) =~= Seq::<Seq<char>>::empty());
            lines
        } else {
            show_headers()
        }
    }

    /// Reports the next file: the one at `path`, with its statistics, or with
    /// nothing where they could not be had. `total` is the sum of the cached
    /// bytes of the files shown before it; the result holds the sum that
    /// includes this file, and the lines to print for it.
    pub fn report(
        &self,
        total: u128,
        path: &str,
        stats: &Option<FincoreStats>,
        nr_regions: usize,
    ) -> (r: (u128, Vec<String>))
        requires
            nr_regions > 0,
            stats matches Some(known) ==> known.consistent(),
            total + u64::MAX <= u128::MAX,
        ensures
            r.0 == total + self.contribution(*stats),
            lines_of(r.1@) == self.entry_lines(path@, *stats, nr_regions as int),
    {
        match stats {
            Some(known) => {
                let lines: Vec<String> = self.render(path, known, nr_regions);
                if self.is_shown(known) {
                    (total + known.cached_bytes as u128, lines)
                } else {
                    (total, lines)
                }
            },
            None => {
                let lines: Vec<String> = Vec::new();
                assert(lines_of(lines@) =~= Seq::<Seq<char>>::empty());
                (total, lines)
            },
        }
    }

    /// Closes the report after files whose cached bytes add up to `total`.
    pub fn finish(&self, total: u128) -> (lines: Vec<String>)
        ensures
            lines_of(lines@) == self.closing_lines(total as nat),
    {
        if self.summarize {
            format_summary(total)
        } else {
            let lines: Vec<String> = Vec::new();
            assert(lines_of(lines@) =~= Seq::<Seq<char>>::empty());
            lines
        }
    }

    /// Lays out the whole report, given the statistics of each file of the
    /// list, or nothing for a file whose statistics could not be had: what
    /// `begin`, `report` for one file after the other, and `finish` give.
    pub fn run(&self, stats: &Vec<Option<FincoreStats>>, nr_regions: usize) -> (lines: Vec<String>)
        requires
            nr_regions > 0,
            stats@.len() == self.files@.len(),
            forall|i: int|
                0 <= i < stats@.len() ==> (#[trigger] stats@[i] matches Some(known)
                    ==> known.consistent()),
        ensures
            lines_of(lines@) == self.run_lines(stats@, nr_regions as int),
    {
        let mut lines: Vec<String> = self.begin();
        let ghost headers = lines_of(lines@);
        let mut total: u128 = 0;
        let mut i: usize = 0;
        while i < stats.len()
            invariant
                i <= stats@.len(),
                nr_regions > 0,
                stats@.len() == self.files@.len(),
                forall|k: int|
                    0 <= k < stats@.len() ==> (#[trigger] stats@[k] matches Some(known)
                        ==> known.consistent()),
                total == self.total_cached(stats@.take(i as int)),
                lines_of(lines@) == headers + self.files_lines(
                    stats@.take(i as int),
                    nr_regions as int,
                ),
            decreases stats@.len() - i,
        {
            proof {
                assert(stats@.take(i + 1).drop_last() =~= stats@.take(i as int));
                self.lemma_total_cached_bounded(stats@.take(i as int));
                assert(i * u64::MAX + u64::MAX <= u128::MAX) by (nonlinear_arith)
                    requires
                        i <= usize::MAX,
                ;
            }
            let (next, entry) = self.report(total, self.files[i].as_str(), &stats[i], nr_regions);
            push_lines(&mut lines, entry);
            total = next;
            i = i + 1;
            assert(lines_of(lines@) =~= headers + self.files_lines(
                stats@.take(i as int),
                nr_regions as int,
            ));
        }
        assert(stats@.take(i as int) =~= stats@);
        push_lines(&mut lines, self.finish(total));
        assert(lines_of(lines@) =~= self.run_lines(stats@, nr_regions as int));
        lines
    }
}

/// Whether the threshold `tight` lets pass no more than the threshold
/// `loose`: a missing threshold lets everything pass, and a higher one less
/// than a lower one.
pub open spec fn at_least(tight: Option<u64>, loose: Option<u64>) -> bool {
    match loose {
        None => true,
        Some(loose) => tight matches Some(tight) && tight >= loose,
    }
}

impl Fincore {
    /// Whether each filter of `self` is at least as tight as that of
    /// `other`.
    pub open spec fn tightens(&self, other: &Fincore) -> bool {
        &&& at_least(self.min_size, other.min_size)
        &&& at_least(self.min_cached_size, other.min_cached_size)
        &&& at_least(self.min_perc_cached, other.min_perc_cached)
        &&& other.only_cached ==> self.only_cached
    }

    /// How many of the files with the statistics `files` are shown.
    pub open spec fn count_shown(&self, files: Seq<FincoreStats>) -> nat
        decreases files.len(),
    {
        if files.len() == 0 {
            0
        } else {
            self.count_shown(files.drop_last()) + if self.shows(&files.last()) {
                1nat
            } else {
                0nat
            }
        }
    }
}

/// Filtering is monotonic: a file that tighter filters show, looser filters
/// show too.
pub proof fn lemma_tighter_filters_show_less(tight: Fincore, loose: Fincore, stats: FincoreStats)
    requires
        tight.tightens(&loose),
    ensures
        tight.shows(&stats) ==> loose.shows(&stats),
{
    if let (Some(high), Some(low)) = (tight.min_perc_cached, loose.min_perc_cached) {
        assert(low * stats.total_pages <= high * stats.total_pages) by (nonlinear_arith)
            requires
                low <= high,
                stats.total_pages >= 0,
        ;
    }
}

/// Filtering is monotonic: of any files, tighter filters show no more than
/// looser ones.
pub proof fn lemma_tighter_filters_show_fewer(
    tight: Fincore,
    loose: Fincore,
    files: Seq<FincoreStats>,
)
    requires
        tight.tightens(&loose),
    ensures
        tight.count_shown(files) <= loose.count_shown(files),
    decreases files.len(),
{
    if files.len() > 0 {
        lemma_tighter_filters_show_fewer(tight, loose, files.drop_last());
        lemma_tighter_filters_show_less(tight, loose, files.last());
    }
}

} // verus!
