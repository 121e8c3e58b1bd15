//! Text formats for bulk-loading grids: a plain text-grid format (one line
//! per row, only `0`, `1` and whitespace) and the padding of rendered pixel
//! art into a grid with an empty border.

use vstd::prelude::*;

use crate::rule::cells_binary;
use vstd::string::StringSliceAdditionalSpecFns;

verus! {

/// Whitespace inside a line: space, tab, or a carriage return left by a
/// Windows line ending.
pub open spec fn is_space(c: char) -> bool {
    c == ' ' || c == '\t' || c == '\r'
}

/// A character the surrounding trim removes: line whitespace or a newline.
pub open spec fn is_blank_char(c: char) -> bool {
    is_space(c) || c == '\n'
}

/// The pieces of a text, split at every occurrence of `sep`: always at
/// least one piece, one more piece per separator, the separators themselves
/// dropped.
pub open spec fn split_at(s: Seq<char>, sep: char) -> Seq<Seq<char>>
    decreases s.len(),
{
    if s.len() == 0 {
        seq![Seq::<char>::empty()]
    } else if s.last() == sep {
        split_at(s.drop_last(), sep).push(Seq::empty())
    } else {
        let rest = split_at(s.drop_last(), sep);
        rest.update(rest.len() - 1, rest.last().push(s.last()))
    }
}

/// The lines of a text: its pieces between newlines.
pub open spec fn split_lines(s: Seq<char>) -> Seq<Seq<char>> {
    split_at(s, '\n')
}

/// A split has at least one piece.
pub proof fn lemma_split_nonempty(s: Seq<char>, sep: char)
    ensures
        split_at(s, sep).len() >= 1,
    decreases s.len(),
{
    if s.len() > 0 {
        lemma_split_nonempty(s.drop_last(), sep);
    }
}

/// The line with its whitespace stripped.
pub open spec fn strip(l: Seq<char>) -> Seq<char>
    decreases l.len(),
{
    if l.len() == 0 {
        l
    } else if is_space(l.last()) {
        strip(l.drop_last())
    } else {
        strip(l.drop_last()).push(l.last())
    }
}

/// A stripped row of the grid file: every remaining character must be a cell.
pub open spec fn valid_row(r: Seq<char>) -> bool {
    forall|j: int| 0 <= j < r.len() ==> r[j] == '0' || r[j] == '1'
}

/// The non-blank lines, stripped, in order: the rows of the grid.
pub open spec fn grid_rows(lines: Seq<Seq<char>>) -> Seq<Seq<char>>
    decreases lines.len(),
{
    if lines.len() == 0 {
        Seq::empty()
    } else {
        let rest = grid_rows(lines.drop_last());
        let stripped = strip(lines.last());
        if stripped.len() == 0 {
            rest
        } else {
            rest.push(stripped)
        }
    }
}

/// Length of the longest row.
pub open spec fn max_row_len(rows: Seq<Seq<char>>) -> int
    decreases rows.len(),
{
    if rows.len() == 0 {
        0
    } else {
        let rest = max_row_len(rows.drop_last());
        if rows.last().len() > rest {
            rows.last().len() as int
        } else {
            rest
        }
    }
}

/// No row is longer than the longest.
pub proof fn lemma_max_row_len(rows: Seq<Seq<char>>, k: int)
    requires
        0 <= k < rows.len(),
    ensures
        rows[k].len() <= max_row_len(rows),
    decreases rows.len(),
{
    if k < rows.len() - 1 {
        lemma_max_row_len(rows.drop_last(), k);
        assert(rows.drop_last()[k] == rows[k]);
    }
}

/// Every grid row is non-blank.
pub proof fn lemma_grid_rows_nonblank(lines: Seq<Seq<char>>)
    ensures
        forall|k: int| 0 <= k < grid_rows(lines).len() ==> (#[trigger] grid_rows(lines)[k]).len()
            > 0,
    decreases lines.len(),
{
    if lines.len() > 0 {
        lemma_grid_rows_nonblank(lines.drop_last());
        let rest = grid_rows(lines.drop_last());
        let stripped = strip(lines.last());
        assert forall|k: int| 0 <= k < grid_rows(lines).len() implies (#[trigger] grid_rows(
            lines,
        )[k]).len() > 0 by {
            if stripped.len() == 0 {
                assert(grid_rows(lines)[k] == rest[k]);
            } else if k < rest.len() {
                assert(grid_rows(lines)[k] == rest[k]);
            } else {
                assert(grid_rows(lines)[k] == stripped);
            }
        }
    }
}

/// The rows of a prefix of the lines are a prefix of the rows.
pub proof fn lemma_grid_rows_prefix(lines: Seq<Seq<char>>, k: int)
    requires
        0 <= k <= lines.len(),
    ensures
        grid_rows(lines.take(k)).is_prefix_of(grid_rows(lines)),
    decreases lines.len() - k,
{
    if k == lines.len() {
        assert(lines.take(k) =~= lines);
    } else {
        lemma_grid_rows_prefix(lines, k + 1);
        assert(lines.take(k + 1).drop_last() =~= lines.take(k));
        assert(lines.take(k + 1).last() == lines[k]);
        assert(grid_rows(lines.take(k)).is_prefix_of(grid_rows(lines.take(k + 1))));
    }
}

/// The cell a row yields at column `c`: live on a `'1'`, dead on any other
/// character and right of the row's end (implicit zero padding).
pub open spec fn row_cell(row: Seq<char>, c: int) -> u8 {
    if 0 <= c < row.len() && row[c] == '1' {
        1u8
    } else {
        0u8
    }
}

/// The flat row-major grid of the given rows under a common width.
pub open spec fn grid_of_rows(rows: Seq<Seq<char>>, width: int) -> Seq<u8> {
    Seq::new((rows.len() * width) as nat, |i: int| row_cell(rows[i / width], i % width))
}

/// How loading a text grid file fails.
#[derive(Debug, Clone, Copy, PartialEq, Eq, Structural)]
pub enum TextFileError {
    /// No non-blank line in the file.
    Empty,
    /// A non-blank line holds a character other than `0`, `1` and
    /// whitespace; the payload is its 1-based position among the non-blank
    /// lines.
    InvalidCharacter(usize),
    /// The rows describe a grid of more cells than this machine can index.
    GridTooLarge,
}

/// A parsed grid with its dimensions.
#[derive(Debug)]
pub struct FileResult {
    pub grid: Vec<u8>,
    pub width: usize,
    pub height: usize,
}

/// The characters of a string, one by one.
#[verifier::loop_isolation(false)]
pub(crate) fn chars_of(s: &str) -> (out: Vec<char>)
    ensures
        out@ == s@,
{
    let n = s.unicode_len();
    let mut out: Vec<char> = Vec::new();
    let mut i: usize = 0;
    while i < n
        invariant
            i <= n,
            out@ == s@.take(i as int),
        decreases n - i,
    {
        let c = s.get_char(i);
        out.push(c);
        proof {
            assert(out@ =~= s@.take(i + 1));
        }
        i = i + 1;
    }
    proof {
        assert(s@.take(n as int) =~= s@);
    }
    out
}

/// Splits a character buffer at every occurrence of `sep`.
#[verifier::loop_isolation(false)]
pub(crate) fn split_chars_at(chars: &Vec<char>, sep: char) -> (pieces: Vec<Vec<char>>)
    ensures
        pieces.deep_view() == split_at(chars@, sep),
{
    let n = chars.len();
    let mut done: Vec<Vec<char>> = Vec::new();
    let mut cur: Vec<char> = Vec::new();
    let mut i: usize = 0;
    while i < n
        invariant
            i <= n,
            split_at(chars@.take(i as int), sep) == done.deep_view().push(cur@),
        decreases n - i,
    {
        let c = chars[i];
        proof {
            assert(chars@.take(i + 1).drop_last() =~= chars@.take(i as int));
            assert(chars@.take(i + 1).last() == chars@[i as int]);
        }
        if c == sep {
            done.push(cur);
            cur = Vec::new();
            proof {
                assert(split_at(chars@.take(i + 1), sep) =~~= done.deep_view().push(cur@));
            }
        } else {
            let ghost before = done.deep_view().push(cur@);
            cur.push(c);
            proof {
                assert(before.len() >= 1);
                assert(split_at(chars@.take(i + 1), sep) == before.update(
                    before.len() - 1,
                    before.last().push(c),
                ));
                assert(split_at(chars@.take(i + 1), sep) =~~= done.deep_view().push(cur@));
            }
        }
        i = i + 1;
    }
    proof {
        assert(chars@.take(n as int) =~= chars@);
    }
    done.push(cur);
    proof {
        assert(done.deep_view() =~~= split_at(chars@, sep));
    }
    done
}

/// Splits a character buffer into its lines.
fn split_chars(chars: &Vec<char>) -> (lines: Vec<Vec<char>>)
    ensures
        lines.deep_view() == split_lines(chars@),
{
    split_chars_at(chars, '\n')
}

/// The line with its whitespace removed.
#[verifier::loop_isolation(false)]
fn strip_chars(line: &Vec<char>) -> (out: Vec<char>)
    ensures
        out@ == strip(line@),
{
    let n = line.len();
    let mut out: Vec<char> = Vec::new();
    let mut i: usize = 0;
    while i < n
        invariant
            i <= n,
            out@ == strip(line@.take(i as int)),
        decreases n - i,
    {
        let c = line[i];
        proof {
            assert(line@.take(i + 1).drop_last() =~= line@.take(i as int));
            assert(line@.take(i + 1).last() == line@[i as int]);
        }
        if !(c == ' ' || c == '\t' || c == '\r') {
            out.push(c);
        }
        i = i + 1;
    }
    proof {
        assert(line@.take(n as int) =~= line@);
    }
    out
}

/// Whether every character of the row is a cell.
#[verifier::loop_isolation(false)]
fn row_is_valid(row: &Vec<char>) -> (ok: bool)
    ensures
        ok == valid_row(row@),
{
    let n = row.len();
    let mut i: usize = 0;
    while i < n
        invariant
            i <= n,
            forall|j: int| 0 <= j < i ==> row@[j] == '0' || row@[j] == '1',
        decreases n - i,
    {
        let c = row[i];
        if !(c == '0' || c == '1') {
            return false;
        }
        i = i + 1;
    }
    true
}

/// Length of the longest row.
#[verifier::loop_isolation(false)]
fn longest_row(rows: &Vec<Vec<char>>) -> (m: usize)
    ensures
        m as int == max_row_len(rows.deep_view()),
{
    let n = rows.len();
    let mut m: usize = 0;
    let mut i: usize = 0;
    while i < n
        invariant
            i <= n,
            m as int == max_row_len(rows.deep_view().take(i as int)),
        decreases n - i,
    {
        proof {
            assert(rows.deep_view().take(i + 1).drop_last() =~= rows.deep_view().take(i as int));
            assert(rows.deep_view().take(i + 1).last() == rows.deep_view()[i as int]);
        }
        let len = rows[i].len();
        if len > m {
            m = len;
        }
        i = i + 1;
    }
    proof {
        assert(rows.deep_view().take(n as int) =~= rows.deep_view());
    }
    m
}

/// Lays the rows out as one flat row-major grid of the given width.
#[verifier::loop_isolation(false)]
fn rows_to_grid(rows: &Vec<Vec<char>>, width: usize) -> (grid: Vec<u8>)
    requires
        width > 0,
        rows@.len() * width <= usize::MAX,
    ensures
        grid@ == grid_of_rows(rows.deep_view(), width as int),
        cells_binary(grid@),
{
    let height = rows.len();
    let ghost target = grid_of_rows(rows.deep_view(), width as int);
    let mut grid: Vec<u8> = Vec::new();
    let mut r: usize = 0;
    while r < height
        invariant
            r <= height,
            grid@.len() == r * width,
            forall|k: int| 0 <= k < grid@.len() ==> grid@[k] == target[k],
        decreases height - r,
    {
        let row = &rows[r];
        let row_len = row.len();
        let mut c: usize = 0;
        while c < width
            invariant
                c <= width,
                r < height,
                grid@.len() == r * width + c,
                forall|k: int| 0 <= k < grid@.len() ==> grid@[k] == target[k],
            decreases width - c,
        {
            proof {
                crate::rule::lemma_row_major_bound(width as int, height as int, r as int, c as int);
                crate::rule::lemma_row_major_coords(width as int, r as int, c as int);
                assert(r * width + c < height * width);
                assert(height * width == width * height) by (nonlinear_arith);
            }
            let cell: u8 = if c < row_len && row[c] == '1' {
                1
            } else {
                0
            };
            grid.push(cell);
            c = c + 1;
        }
        proof {
            assert((r + 1) * width == r * width + width) by (nonlinear_arith);
        }
        r = r + 1;
    }
    proof {
        assert(height * width == width * height) by (nonlinear_arith);
        assert(grid@ =~= target);
    }
    grid
}

/// Loads a grid from text: one line per row, whitespace stripped, `1` a live
/// cell and `0` a dead one; blank lines are skipped, the width is the
/// longest stripped line, shorter rows are zero-padded on the right. Fails
/// when no non-blank line exists, when a non-blank line holds any other
/// character — reporting its 1-based position among the non-blank lines —
/// or when the grid would have more cells than this machine can index.
#[verifier::loop_isolation(false)]
pub fn parse_text_file(content: &str) -> (r: Result<FileResult, TextFileError>)
    ensures
        ({
            let rows = grid_rows(split_lines(content@));
            match r {
                Ok(res) => rows.len() > 0 && (forall|k: int|
                    0 <= k < rows.len() ==> valid_row(#[trigger] rows[k])) && res.height
                    == rows.len() && res.width == max_row_len(rows) && res.grid@ == grid_of_rows(
                    rows,
                    max_row_len(rows),
                ) && cells_binary(res.grid@),
                Err(TextFileError::Empty) => rows.len() == 0,
                Err(TextFileError::InvalidCharacter(pos)) => 1 <= pos <= rows.len() && !valid_row(
                    rows[pos - 1],
                ) && (forall|k: int| 0 <= k < pos - 1 ==> valid_row(#[trigger] rows[k])),
                Err(TextFileError::GridTooLarge) => rows.len() > 0 && (forall|k: int|
                    0 <= k < rows.len() ==> valid_row(#[trigger] rows[k])) && max_row_len(rows)
                    * rows.len() > usize::MAX,
            }
        }),
{
    let chars = chars_of(content);
    let lines = split_chars(&chars);
    let ghost all_lines = split_lines(content@);
    let ghost all_rows = grid_rows(all_lines);
    let line_count = lines.len();
    let mut rows: Vec<Vec<char>> = Vec::new();
    let mut k: usize = 0;
    while k < line_count
        invariant
            k <= line_count,
            rows.deep_view() == grid_rows(all_lines.take(k as int)),
            rows@.len() <= k,
            forall|j: int| 0 <= j < rows.deep_view().len() ==> valid_row(
                #[trigger] rows.deep_view()[j],
            ),
        decreases line_count - k,
    {
        proof {
            assert(all_lines.take(k + 1).drop_last() =~= all_lines.take(k as int));
            assert(all_lines.take(k + 1).last() == all_lines[k as int]);
        }
        let stripped = strip_chars(&lines[k]);
        proof {
            assert(lines.deep_view()[k as int] =~= lines@[k as int]@);
            assert(stripped@ == strip(all_lines[k as int]));
        }
        if stripped.len() > 0 {
            let ok = row_is_valid(&stripped);
            if !ok {
                let pos = rows.len() + 1;
                proof {
                    let upto = grid_rows(all_lines.take(k + 1));
                    lemma_grid_rows_prefix(all_lines, k + 1);
                    assert(upto =~= rows.deep_view().push(stripped@));
                    assert(upto =~= all_rows.subrange(0, upto.len() as int));
                    assert(all_rows[pos - 1] == upto[pos - 1]);
                    assert(all_rows[pos - 1] == stripped@);
                    assert forall|j: int| 0 <= j < pos - 1 implies valid_row(
                        #[trigger] all_rows[j],
                    ) by {
                        assert(all_rows[j] == upto[j]);
                        assert(upto[j] == rows.deep_view()[j]);
                    }
                }
                return Err(TextFileError::InvalidCharacter(pos));
            }
            rows.push(stripped);
            proof {
                assert(rows.deep_view() =~~= grid_rows(all_lines.take(k + 1)));
            }
        } else {
            proof {
                assert(rows.deep_view() =~~= grid_rows(all_lines.take(k + 1)));
            }
        }
        k = k + 1;
    }
    proof {
        assert(all_lines.take(line_count as int) =~= all_lines);
    }
    let height = rows.len();
    if height == 0 {
        return Err(TextFileError::Empty);
    }
    let width = longest_row(&rows);
    proof {
        lemma_grid_rows_nonblank(all_lines);
        lemma_max_row_len(all_rows, 0);
    }
    if width > usize::MAX / height {
        proof {
            crate::rule::lemma_product_exceeds(width as int, height as int, usize::MAX as int);
        }
        return Err(TextFileError::GridTooLarge);
    }
    proof {
        crate::rule::lemma_product_fits(width as int, height as int, usize::MAX as int);
        assert(height * width == width * height) by (nonlinear_arith);
    }
    let grid = rows_to_grid(&rows, width);
    Ok(FileResult { grid, width, height })
}


/// The text with trailing blanks (whitespace and newlines) removed.
pub open spec fn trim_end(s: Seq<char>) -> Seq<char>
    decreases s.len(),
{
    if s.len() == 0 {
        s
    } else if is_blank_char(s.last()) {
        trim_end(s.drop_last())
    } else {
        s
    }
}

/// The text with leading blanks removed.
pub open spec fn trim_start(s: Seq<char>) -> Seq<char>
    decreases s.len(),
{
    if s.len() == 0 {
        s
    } else if is_blank_char(s.first()) {
        trim_start(s.drop_first())
    } else {
        s
    }
}

/// The text with leading and trailing blanks removed.
pub open spec fn trim(s: Seq<char>) -> Seq<char> {
    trim_start(trim_end(s))
}

/// A non-empty trim never ends in a blank.
pub proof fn lemma_trim_last(s: Seq<char>)
    ensures
        trim(s).len() > 0 ==> !is_blank_char(trim(s).last()),
{
    lemma_trim_end_last(s);
    lemma_trim_start_suffix(trim_end(s));
}

/// The trim is empty exactly when every character is blank.
pub proof fn lemma_trim_empty_iff_blank(s: Seq<char>)
    ensures
        trim(s).len() == 0 <==> (forall|j: int| 0 <= j < s.len() ==> is_blank_char(#[trigger] s[j])),
{
    lemma_trim_end_blank(s);
    if trim_end(s).len() > 0 {
        lemma_trim_end_last(s);
        lemma_trim_start_keeps_last(trim_end(s));
    }
}

proof fn lemma_trim_end_blank(s: Seq<char>)
    ensures
        trim_end(s).len() == 0 <==> (forall|j: int| 0 <= j < s.len() ==> is_blank_char(
            #[trigger] s[j],
        )),
    decreases s.len(),
{
    if s.len() > 0 {
        lemma_trim_end_blank(s.drop_last());
        if is_blank_char(s.last()) {
            assert forall|j: int|
                0 <= j < s.len() && (forall|k: int|
                    0 <= k < s.drop_last().len() ==> is_blank_char(
                        #[trigger] s.drop_last()[k],
                    )) implies is_blank_char(#[trigger] s[j]) by {
                if j < s.len() - 1 {
                    assert(s.drop_last()[j] == s[j]);
                }
            }
            assert forall|k: int|
                0 <= k < s.drop_last().len() && (forall|j: int|
                    0 <= j < s.len() ==> is_blank_char(#[trigger] s[j])) implies is_blank_char(
                #[trigger] s.drop_last()[k],
            ) by {
                assert(s.drop_last()[k] == s[k]);
            }
        }
    }
}

proof fn lemma_trim_start_keeps_last(s: Seq<char>)
    requires
        s.len() > 0,
        !is_blank_char(s.last()),
    ensures
        trim_start(s).len() > 0,
    decreases s.len(),
{
    if is_blank_char(s.first()) {
        assert(s.drop_first().last() == s.last());
        lemma_trim_start_keeps_last(s.drop_first());
    }
}

proof fn lemma_trim_end_last(s: Seq<char>)
    ensures
        trim_end(s).len() > 0 ==> !is_blank_char(trim_end(s).last()),
    decreases s.len(),
{
    if s.len() > 0 && is_blank_char(s.last()) {
        lemma_trim_end_last(s.drop_last());
    }
}

proof fn lemma_trim_start_suffix(s: Seq<char>)
    ensures
        trim_start(s).len() > 0 ==> s.len() > 0 && trim_start(s).last() == s.last(),
    decreases s.len(),
{
    if s.len() > 0 && is_blank_char(s.first()) {
        lemma_trim_start_suffix(s.drop_first());
        if trim_start(s).len() > 0 {
            assert(s.drop_first().last() == s.last());
        }
    }
}

/// The cell at (r, c) of pixel art padded by an empty border of `buffer`
/// cells on every side: live exactly on a `'1'` of the art.
pub open spec fn padded_cell(lines: Seq<Seq<char>>, buffer: int, r: int, c: int) -> u8 {
    if buffer <= r < buffer + lines.len() && buffer <= c && c - buffer < lines[r - buffer].len()
        && lines[r - buffer][c - buffer] == '1' {
        1u8
    } else {
        0u8
    }
}

/// The flat row-major grid of the padded pixel art under the given total
/// width.
pub open spec fn art_grid(lines: Seq<Seq<char>>, buffer: int, total_width: int) -> Seq<u8> {
    Seq::new(
        ((lines.len() + 2 * buffer) * total_width) as nat,
        |i: int| padded_cell(lines, buffer, i / total_width, i % total_width),
    )
}

/// How turning text into a padded grid fails.
#[derive(Debug, Clone, Copy, PartialEq, Eq, Structural)]
pub enum TextError {
    /// The request text is empty.
    EmptyText,
    /// The request text is over 50 bytes.
    TextTooLong,
    /// The rendered pixel art is empty once trimmed.
    EmptyArt,
    /// The padded art describes a grid of more cells than this machine can
    /// index.
    GridTooLarge,
}

/// A padded pixel-art grid with its dimensions.
#[derive(Debug)]
pub struct GridResult {
    pub grid: Vec<u8>,
    pub width: usize,
    pub height: usize,
}

/// Admits a text-to-grid request: the text must be non-empty and at most 50
/// bytes.
pub fn check_text_request(text: &str) -> (r: Result<(), TextError>)
    ensures
        match r {
            Ok(()) => 1 <= text.spec_bytes().len() <= 50,
            Err(TextError::EmptyText) => text.spec_bytes().len() == 0,
            Err(TextError::TextTooLong) => text.spec_bytes().len() > 50,
            Err(_) => false,
        },
{
    let bytes = text.as_bytes();
    let len = bytes.len();
    if len == 0 {
        return Err(TextError::EmptyText);
    }
    if len > 50 {
        return Err(TextError::TextTooLong);
    }
    Ok(())
}

/// Whether the buffer still ends in a blank.
fn last_is_blank(v: &Vec<char>) -> (b: bool)
    ensures
        b == (v@.len() > 0 && is_blank_char(v@.last())),
{
    if v.len() == 0 {
        return false;
    }
    let c = v[v.len() - 1];
    c == ' ' || c == '\t' || c == '\r' || c == '\n'
}

/// Whether the buffer holds a blank at position `at`.
fn blank_at(v: &Vec<char>, at: usize) -> (b: bool)
    requires
        at <= v@.len(),
    ensures
        b == (at < v@.len() && is_blank_char(v@[at as int])),
{
    if at >= v.len() {
        return false;
    }
    let c = v[at];
    c == ' ' || c == '\t' || c == '\r' || c == '\n'
}

/// The characters with leading and trailing blanks removed.
#[verifier::loop_isolation(false)]
pub(crate) fn trim_chars(chars: Vec<char>) -> (out: Vec<char>)
    ensures
        out@ == trim(chars@),
{
    let mut cur = chars;
    while last_is_blank(&cur)
        invariant
            trim_end(cur@) == trim_end(chars@),
        decreases cur@.len(),
    {
        cur.pop();
    }
    let ghost ended = trim_end(chars@);
    proof {
        assert(cur@ == ended);
    }
    let n = cur.len();
    let mut lo: usize = 0;
    proof {
        assert(cur@.skip(0) =~= cur@);
    }
    while blank_at(&cur, lo)
        invariant
            lo <= n,
            n == cur@.len(),
            trim_start(cur@.skip(lo as int)) == trim_start(cur@),
        decreases n - lo,
    {
        proof {
            assert(cur@.skip(lo as int).drop_first() =~= cur@.skip(lo + 1));
        }
        lo = lo + 1;
    }
    proof {
        assert(trim_start(cur@.skip(lo as int)) == cur@.skip(lo as int));
    }
    let mut out: Vec<char> = Vec::new();
    let mut i: usize = lo;
    while i < n
        invariant
            lo <= i <= n,
            out@ == cur@.subrange(lo as int, i as int),
        decreases n - i,
    {
        let c = cur[i];
        out.push(c);
        proof {
            assert(out@ =~= cur@.subrange(lo as int, i + 1));
        }
        i = i + 1;
    }
    proof {
        assert(cur@.subrange(lo as int, n as int) =~= cur@.skip(lo as int));
    }
    out
}

/// Lays padded pixel art out as one flat row-major grid.
#[verifier::loop_isolation(false)]
fn lines_to_padded_grid(lines: &Vec<Vec<char>>, buffer: usize, total_width: usize, total_height: usize) -> (grid: Vec<u8>)
    requires
        total_width > 0,
        total_height == lines@.len() + 2 * buffer,
        total_height * total_width <= usize::MAX,
    ensures
        grid@ == art_grid(lines.deep_view(), buffer as int, total_width as int),
        cells_binary(grid@),
{
    let line_count = lines.len();
    let ghost target = art_grid(lines.deep_view(), buffer as int, total_width as int);
    let mut grid: Vec<u8> = Vec::new();
    let mut r: usize = 0;
    while r < total_height
        invariant
            r <= total_height,
            grid@.len() == r * total_width,
            forall|k: int| 0 <= k < grid@.len() ==> grid@[k] == target[k],
        decreases total_height - r,
    {
        let mut c: usize = 0;
        while c < total_width
            invariant
                c <= total_width,
                r < total_height,
                grid@.len() == r * total_width + c,
                forall|k: int| 0 <= k < grid@.len() ==> grid@[k] == target[k],
            decreases total_width - c,
        {
            proof {
                crate::rule::lemma_row_major_bound(
                    total_width as int,
                    total_height as int,
                    r as int,
                    c as int,
                );
                crate::rule::lemma_row_major_coords(total_width as int, r as int, c as int);
                assert(total_height * total_width == total_width * total_height)
                    by (nonlinear_arith);
            }
            let cell: u8 = if r >= buffer && r - buffer < line_count && c >= buffer {
                let line = &lines[r - buffer];
                proof {
                    assert(lines.deep_view()[r - buffer] =~= line@);
                }
                if c - buffer < line.len() && line[c - buffer] == '1' {
                    1
                } else {
                    0
                }
            } else {
                0
            };
            grid.push(cell);
            c = c + 1;
        }
        proof {
            assert((r + 1) * total_width == r * total_width + total_width) by (nonlinear_arith);
        }
        r = r + 1;
    }
    proof {
        assert(total_height * total_width == total_width * total_height) by (nonlinear_arith);
        assert(grid@ =~= target);
    }
    grid
}

/// Pads rendered pixel art — one text line per pixel row, `'1'` a live cell —
/// with an empty border of `buffer_size` cells on every side and lays it out
/// as one flat grid. The art is trimmed first; its width is its longest
/// line. Fails when the trimmed art is empty, or when the padded grid would
/// have more cells than this machine can index.
#[verifier::loop_isolation(false)]
pub fn ascii_art_to_grid(art: &str, buffer_size: usize) -> (r: Result<GridResult, TextError>)
    ensures
        ({
            let t = trim(art@);
            let lines = split_lines(t);
            let tw = max_row_len(lines) + 2 * buffer_size;
            let th = lines.len() + 2 * buffer_size;
            match r {
                Ok(res) => t.len() > 0 && tw * th <= usize::MAX && res.width == tw && res.height
                    == th && res.grid@ == art_grid(lines, buffer_size as int, tw) && cells_binary(
                    res.grid@,
                ),
                Err(TextError::EmptyArt) => t.len() == 0,
                Err(TextError::GridTooLarge) => t.len() > 0 && tw * th > usize::MAX,
                Err(_) => false,
            }
        }),
{
    let chars = chars_of(art);
    let trimmed = trim_chars(chars);
    if trimmed.len() == 0 {
        return Err(TextError::EmptyArt);
    }
    let lines = split_chars(&trimmed);
    let ghost spec_lines = split_lines(trim(art@));
    let content_width = longest_row(&lines);
    let content_height = lines.len();
    proof {
        let t = trim(art@);
        lemma_split_nonempty(t, '\n');
        lemma_split_nonempty(t.drop_last(), '\n');
        lemma_trim_last(art@);
        let rest = split_lines(t.drop_last());
        assert(spec_lines == rest.update(rest.len() - 1, rest.last().push(t.last())));
        assert(spec_lines.last() == rest.last().push(t.last()));
        assert(spec_lines.last().len() > 0);
        lemma_max_row_len(spec_lines, spec_lines.len() - 1);
    }
    if buffer_size > (usize::MAX - content_width) / 2 {
        proof {
            lemma_double_exceeds(buffer_size as int, content_width as int, usize::MAX as int);
            lemma_wide_grid_exceeds(
                content_width + 2 * buffer_size,
                content_height + 2 * buffer_size,
                usize::MAX as int,
            );
        }
        return Err(TextError::GridTooLarge);
    }
    proof {
        lemma_double_fits(buffer_size as int, content_width as int, usize::MAX as int);
    }
    let total_width = content_width + 2 * buffer_size;
    if buffer_size > (usize::MAX - content_height) / 2 {
        proof {
            lemma_double_exceeds(buffer_size as int, content_height as int, usize::MAX as int);
            lemma_tall_grid_exceeds(
                total_width as int,
                content_height + 2 * buffer_size,
                usize::MAX as int,
            );
        }
        return Err(TextError::GridTooLarge);
    }
    proof {
        lemma_double_fits(buffer_size as int, content_height as int, usize::MAX as int);
    }
    let total_height = content_height + 2 * buffer_size;
    if total_width > usize::MAX / total_height {
        proof {
            crate::rule::lemma_product_exceeds(
                total_width as int,
                total_height as int,
                usize::MAX as int,
            );
        }
        return Err(TextError::GridTooLarge);
    }
    proof {
        crate::rule::lemma_product_fits(total_width as int, total_height as int, usize::MAX as int);
        assert(total_height * total_width == total_width * total_height) by (nonlinear_arith);
    }
    let grid = lines_to_padded_grid(&lines, buffer_size, total_width, total_height);
    Ok(GridResult { grid, width: total_width, height: total_height })
}

/// If `b` exceeds `(m - x) / 2`, then `x + 2 b` exceeds `m`.
proof fn lemma_double_exceeds(b: int, x: int, m: int)
    requires
        0 <= x <= m,
        b > (m - x) / 2,
    ensures
        x + 2 * b > m,
{
    vstd::arithmetic::div_mod::lemma_fundamental_div_mod(m - x, 2);
}

/// If `b` is at most `(m - x) / 2`, then `x + 2 b` is at most `m`.
proof fn lemma_double_fits(b: int, x: int, m: int)
    requires
        0 <= x <= m,
        0 <= b <= (m - x) / 2,
    ensures
        x + 2 * b <= m,
{
    vstd::arithmetic::div_mod::lemma_fundamental_div_mod(m - x, 2);
}

/// A grid wider than the machine limit exceeds it whatever its height.
proof fn lemma_wide_grid_exceeds(w: int, h: int, m: int)
    requires
        w > m,
        h >= 1,
        m >= 0,
    ensures
        w * h > m,
{
    assert(w * h >= w) by (nonlinear_arith)
        requires
            h >= 1,
            w >= 0,
    {}
}

/// A grid taller than the machine limit exceeds it whatever its width, as
/// long as it is at least one cell wide.
proof fn lemma_tall_grid_exceeds(w: int, h: int, m: int)
    requires
        h > m,
        w >= 1,
        m >= 0,
    ensures
        w * h > m,
{
    assert(w * h >= h) by (nonlinear_arith)
        requires
            w >= 1,
            h >= 0,
    {}
}

} // verus!
