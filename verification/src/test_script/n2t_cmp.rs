//! The `.cmp` comparison-file reader: a pipe-delimited table whose first
//! pipe-bearing line names the columns and whose later lines carry cells
//! typed by an externally supplied header.

use crate::hdl::strs_view;
use crate::test_script::{cells_view, table_view, OutType, OutTypeV};
use crate::text::{digits_val, is_digit, is_digit_exec, line_comment_end, to_chars};
use vstd::prelude::*;

verus! {

/// A parsed comparison table: one cell column per named column.
#[derive(Debug, PartialEq, Eq)]
pub struct N2tCmp {
    pub table: Vec<Vec<OutType>>,
    pub names: Vec<String>,
}

/// The text split at line breaks, from position `i` on.
pub open spec fn lines_from(s: Seq<char>, i: int) -> Seq<Seq<char>>
    decreases s.len() - i,
    when 0 <= i <= s.len()
{
    let j = line_comment_end(s, i);
    if i <= j < s.len() {
        seq![s.subrange(i, j)] + lines_from(s, j + 1)
    } else {
        seq![s.subrange(i, s.len() as int)]
    }
}

/// Whether a line holds a pipe and so belongs to the table.
pub open spec fn has_pipe(l: Seq<char>) -> bool {
    exists|k: int| 0 <= k < l.len() && l[k] == '|'
}

/// The cells of one line: runs between pipes, blanks dropped, empty cells
/// skipped.
pub open spec fn cells_from(l: Seq<char>, i: int, cur: Seq<char>, acc: Seq<Seq<char>>) -> Seq<
    Seq<char>,
>
    decreases l.len() - i,
    when 0 <= i
{
    if i >= l.len() {
        if cur.len() == 0 {
            acc
        } else {
            acc.push(cur)
        }
    } else if l[i] == '|' {
        if cur.len() == 0 {
            cells_from(l, i + 1, Seq::empty(), acc)
        } else {
            cells_from(l, i + 1, Seq::empty(), acc.push(cur))
        }
    } else if l[i] == ' ' || l[i] == '\t' || l[i] == '\r' {
        cells_from(l, i + 1, cur, acc)
    } else {
        cells_from(l, i + 1, cur.push(l[i]), acc)
    }
}

/// The cell rows of the table: every pipe-bearing line, split into cells.
pub open spec fn rows_from(lines: Seq<Seq<char>>) -> Seq<Seq<Seq<char>>>
    decreases lines.len(),
{
    if lines.len() == 0 {
        Seq::empty()
    } else if has_pipe(lines[0]) {
        seq![cells_from(lines[0], 0, Seq::empty(), Seq::empty())] + rows_from(lines.drop_first())
    } else {
        rows_from(lines.drop_first())
    }
}

/// Whether every character of the run is a binary digit.
pub open spec fn all_bits(l: Seq<char>) -> bool {
    forall|k: int| 0 <= k < l.len() ==> l[k] == '0' || l[k] == '1'
}

/// The bit row a run of `0`/`1` characters denotes.
pub open spec fn bits_of(l: Seq<char>) -> Seq<bool> {
    Seq::new(l.len(), |k: int| l[k] == '1')
}

/// Whether every character of the run is a decimal digit.
pub open spec fn all_digits(l: Seq<char>) -> bool {
    forall|k: int| 0 <= k < l.len() ==> is_digit(#[trigger] l[k])
}

/// The signed value of a decimal run with an optional leading minus, when
/// it fits in `isize`.
pub open spec fn signed_val(l: Seq<char>) -> Option<int> {
    if l.len() > 0 && l[0] == '-' {
        let mag = l.drop_first();
        if mag.len() > 0 && all_digits(mag) && digits_val(mag) <= (isize::MAX as int) + 1 {
            Some(-digits_val(mag))
        } else {
            None
        }
    } else {
        if l.len() > 0 && all_digits(l) && digits_val(l) <= isize::MAX as int {
            Some(digits_val(l) as int)
        } else {
            None
        }
    }
}

/// One cell read under a header type.  A trailing `+` marks the tock
/// half-phase; it is meaningful for clock cells and stripped everywhere.
pub open spec fn parse_cell_spec(head: OutTypeV, cell: Seq<char>) -> Option<OutTypeV> {
    let tock = cell.len() > 0 && cell.last() == '+';
    let val = if tock {
        cell.drop_last()
    } else {
        cell
    };
    match head {
        OutTypeV::Clock(_) => if val.len() > 0 && all_digits(val) && digits_val(val)
            <= usize::MAX {
            Some(OutTypeV::Clock((digits_val(val), tock)))
        } else {
            None
        },
        OutTypeV::Binary(_) => if all_bits(val) {
            Some(OutTypeV::Binary(bits_of(val)))
        } else {
            None
        },
        OutTypeV::Decimal(_) => match signed_val(val) {
            Some(d) => Some(OutTypeV::Decimal(d)),
            None => None,
        },
    }
}

/// Whether every data row has one well-typed cell per column.
pub open spec fn rows_ok(head: Seq<OutTypeV>, rows: Seq<Seq<Seq<char>>>) -> bool {
    forall|r: int|
        1 <= r < rows.len() ==> (#[trigger] rows[r]).len() == head.len() && (forall|c: int|
            0 <= c < head.len() ==> parse_cell_spec(head[c], #[trigger] rows[r][c]) is Some)
}

/// What `from_code` returns: the column names from the first pipe-bearing
/// line, and one column of parsed cells per name.  It fails when there is
/// no header line, when the header width differs from the supplied one,
/// or when any row or cell does not fit the header.
pub open spec fn cmp_spec(s: Seq<char>, head: Seq<OutTypeV>) -> Option<(
    Seq<Seq<char>>,
    Seq<Seq<OutTypeV>>,
)> {
    let rows = rows_from(lines_from(s, 0));
    if rows.len() == 0 {
        None
    } else if rows[0].len() != head.len() {
        None
    } else if !rows_ok(head, rows) {
        None
    } else {
        Some(
            (
                rows[0],
                Seq::new(
                    head.len(),
                    |c: int|
                        Seq::new(
                            (rows.len() - 1) as nat,
                            |r: int| parse_cell_spec(head[c], rows[r + 1][c])->Some_0,
                        ),
                ),
            ),
        )
    }
}

impl N2tCmp {
    /// A table from its columns and names.
    pub fn new(table: Vec<Vec<OutType>>, names: Vec<&str>) -> (r: Self)
        ensures
            r.table@ == table@,
            r.names@.len() == names@.len(),
            forall|j: int| 0 <= j < names@.len() ==> (#[trigger] r.names@[j])@ == names@[j]@,
    {
        let mut owned: Vec<String> = Vec::new();
        let mut i: usize = 0;
        while i < names.len()
            invariant
                i <= names@.len(),
                owned@.len() == i,
                forall|j: int| 0 <= j < i ==> (#[trigger] owned@[j])@ == names@[j]@,
            decreases names@.len() - i,
        {
            owned.push(String::from_str(names[i]));
            i = i + 1;
        }
        N2tCmp { table, names: owned }
    }

    /// Reads a comparison table under the supplied column header.
    #[verifier::loop_isolation(false)]
    pub fn from_code(code: &str, head: Vec<OutType>) -> (r: Result<Self, String>)
        ensures
            match r {
                Ok(cmp) => cmp_spec(code@, cells_view(head@)) == Some(
                    (strs_view(cmp.names@), table_view(cmp.table@)),
                ),
                Err(_) => cmp_spec(code@, cells_view(head@)) is None,
            },
    {
        let ghost hv = cells_view(head@);
        let v = to_chars(code);
        let rows = split_rows(&v);
        let ghost rv = rows_view(rows@);
        proof {
            assert(rv == rows_from(lines_from(code@, 0)));
        }
        if rows.len() == 0 {
            return Err(String::from_str("the table has no header line"));
        }
        if rows[0].len() != head.len() {
            return Err(String::from_str("the header width does not match the names"));
        }
        // Every data row must be as wide as the header.
        let mut r0: usize = 1;
        while r0 < rows.len()
            invariant
                1 <= r0 <= rv.len(),
                forall|t: int| 1 <= t < r0 ==> (#[trigger] rv[t]).len() == hv.len(),
            decreases rv.len() - r0,
        {
            proof {
                assert(rv[r0 as int] == strs_view(rows@[r0 as int]@));
            }
            if rows[r0].len() != head.len() {
                proof {
                    assert(!rows_ok(hv, rv));
                }
                return Err(String::from_str("a row width does not match the header"));
            }
            r0 = r0 + 1;
        }
        // The column names.
        let mut names: Vec<String> = Vec::new();
        let mut c: usize = 0;
        while c < rows[0].len()
            invariant
                c <= rows@[0]@.len(),
                rows@.len() > 0,
                names@.len() == c,
                forall|j: int| 0 <= j < c ==> (#[trigger] names@[j])@ == rv[0][j],
            decreases rows@[0]@.len() - c,
        {
            names.push(rows[0][c].clone());
            c = c + 1;
        }
        // One parsed column per name.
        let mut table: Vec<Vec<OutType>> = Vec::new();
        let mut c2: usize = 0;
        while c2 < head.len()
            invariant
                c2 <= head@.len(),
                rows@.len() > 0,
                rv[0].len() == head@.len(),
                hv == cells_view(head@),
                rv == rows_view(rows@),
                table@.len() == c2,
                forall|t: int| 1 <= t < rv.len() ==> (#[trigger] rv[t]).len() == hv.len(),
                forall|cc: int, r: int|
                    0 <= cc < c2 && 1 <= r < rv.len() ==> parse_cell_spec(
                        hv[cc],
                        #[trigger] rv[r][cc],
                    ) is Some,
                forall|cc: int|
                    0 <= cc < c2 ==> cells_view(#[trigger] table@[cc]@) == Seq::new(
                        (rv.len() - 1) as nat,
                        |r: int| parse_cell_spec(hv[cc], rv[r + 1][cc])->Some_0,
                    ),
            decreases head@.len() - c2,
        {
            let mut col: Vec<OutType> = Vec::new();
            let mut r: usize = 1;
            while r < rows.len()
                invariant
                    1 <= r <= rv.len(),
                    c2 < head@.len(),
                    rows@.len() > 0,
                    hv == cells_view(head@),
                    rv == rows_view(rows@),
                    col@.len() == r - 1,
                    forall|t: int| 1 <= t < rv.len() ==> (#[trigger] rv[t]).len() == hv.len(),
                    forall|t: int|
                        1 <= t < r ==> parse_cell_spec(
                            hv[c2 as int],
                            #[trigger] rv[t][c2 as int],
                        ) is Some,
                    forall|t: int|
                        1 <= t < r ==> cells_view(col@)[t - 1] == parse_cell_spec(
                            hv[c2 as int],
                            #[trigger] rv[t][c2 as int],
                        )->Some_0,
                decreases rv.len() - r,
            {
                proof {
                    assert(rv[r as int] == strs_view(rows@[r as int]@));
                    assert(hv[c2 as int] == head@[c2 as int]@);
                    assert(rv[r as int][c2 as int] == rows@[r as int]@[c2 as int]@);
                }
                let cell = match parse_cell(&head[c2], &rows[r][c2]) {
                    Ok(cell) => cell,
                    Err(e) => {
                        proof {
                            assert(!rows_ok(hv, rv));
                        }
                        return Err(e);
                    },
                };
                let ghost cellv = cell@;
                col.push(cell);
                proof {
                    assert(cells_view(col@) =~= cells_view(col@.drop_last()).push(cellv));
                }
                r = r + 1;
            }
            let ghost colv = cells_view(col@);
            table.push(col);
            proof {
                assert(colv =~= Seq::new(
                    (rv.len() - 1) as nat,
                    |t: int| parse_cell_spec(hv[c2 as int], rv[t + 1][c2 as int])->Some_0,
                ));
                assert(forall|cc: int|
                    0 <= cc < c2 + 1 ==> cells_view(#[trigger] table@[cc]@) == Seq::new(
                        (rv.len() - 1) as nat,
                        |r2: int| parse_cell_spec(hv[cc], rv[r2 + 1][cc])->Some_0,
                    ));
            }
            c2 = c2 + 1;
        }
        let result = N2tCmp { table, names };
        proof {
            assert forall|r: int|
                1 <= r < rv.len() implies (#[trigger] rv[r]).len() == hv.len() && (forall|c: int|
                0 <= c < hv.len() ==> parse_cell_spec(hv[c], #[trigger] rv[r][c]) is Some) by {}
            assert(rows_ok(hv, rv));
            assert(strs_view(result.names@) =~= rv[0]);
            assert(table_view(result.table@) =~= Seq::new(
                hv.len(),
                |c: int|
                    Seq::new(
                        (rv.len() - 1) as nat,
                        |r: int| parse_cell_spec(hv[c], rv[r + 1][c])->Some_0,
                    ),
            ));
        }
        Ok(result)
    }
}

/// The views of a cell-row list.
pub open spec fn rows_view(v: Seq<Vec<String>>) -> Seq<Seq<Seq<char>>> {
    v.map_values(|row: Vec<String>| strs_view(row@))
}

/// Splits the text into its table rows: the cells of every pipe-bearing
/// line.
#[verifier::loop_isolation(false)]
fn split_rows(v: &Vec<char>) -> (r: Vec<Vec<String>>)
    ensures
        rows_view(r@) == rows_from(lines_from(v@, 0)),
{
    let ghost all_lines = lines_from(v@, 0);
    let mut rows: Vec<Vec<String>> = Vec::new();
    let mut i: usize = 0;
    proof {
        assert(rows_view(rows@) =~= Seq::<Seq<Seq<char>>>::empty());
        assert(lines_suffix(v@, 0) == all_lines);
        assert(Seq::<Seq<Seq<char>>>::empty() + rows_from(all_lines) =~~= rows_from(all_lines));
    }
    loop
        invariant
            i <= v@.len(),
            rows_view(rows@) + rows_from(lines_suffix(v@, i as int)) =~~= rows_from(all_lines),
        decreases v@.len() - i,
    {
        let j = crate::text::line_comment_end_exec(v, i);
        let ghost line = v@.subrange(i as int, j as int);
        let (had_pipe, cells) = split_cells(v, i, j);
        proof {
            lemma_lines_suffix_step(v@, i as int);
        }
        if had_pipe {
            let ghost before = rows_view(rows@);
            let ghost cv = strs_view(cells@);
            rows.push(cells);
            proof {
                assert(rows_view(rows@) =~= before.push(cv));
                assert(rows_from(lines_suffix(v@, i as int)) =~= seq![cv] + rows_from(
                    lines_suffix(v@, i as int).drop_first(),
                ));
                assert(before + (seq![cv] + rows_from(lines_suffix(v@, i as int).drop_first()))
                    =~~= before.push(cv) + rows_from(lines_suffix(v@, i as int).drop_first()));
            }
        } else {
            proof {
                assert(rows_from(lines_suffix(v@, i as int)) =~= rows_from(
                    lines_suffix(v@, i as int).drop_first(),
                ));
            }
        }
        if j >= v.len() {
            proof {
                assert(lines_suffix(v@, i as int).drop_first() =~= Seq::<Seq<char>>::empty());
                assert(rows_from(Seq::<Seq<char>>::empty()) =~= Seq::<Seq<Seq<char>>>::empty());
                assert(rows_view(rows@) + Seq::<Seq<Seq<char>>>::empty() =~~= rows_view(rows@));
            }
            return rows;
        }
        i = j + 1;
    }
}

/// The lines of the text from position `i` on, as `lines_from` sees them.
pub open spec fn lines_suffix(s: Seq<char>, i: int) -> Seq<Seq<char>> {
    lines_from(s, i)
}

/// One splitting step: the first line, and the rest.
proof fn lemma_lines_suffix_step(s: Seq<char>, i: int)
    requires
        0 <= i <= s.len(),
    ensures
        lines_suffix(s, i).len() >= 1,
        lines_suffix(s, i)[0] == s.subrange(i, line_comment_end(s, i)),
        line_comment_end(s, i) < s.len() ==> lines_suffix(s, i).drop_first() =~= lines_suffix(
            s,
            line_comment_end(s, i) + 1,
        ),
        line_comment_end(s, i) >= s.len() ==> lines_suffix(s, i).drop_first()
            =~= Seq::<Seq<char>>::empty(),
        i <= line_comment_end(s, i) <= s.len(),
{
    lemma_line_end_bounds(s, i);
    let j = line_comment_end(s, i);
    if j >= s.len() {
        assert(lines_from(s, i) == seq![s.subrange(i, s.len() as int)]);
        assert(s.subrange(i, j) =~= s.subrange(i, s.len() as int));
    }
}

/// The first line break search stays inside the text.
proof fn lemma_line_end_bounds(s: Seq<char>, i: int)
    requires
        0 <= i <= s.len(),
    ensures
        i <= line_comment_end(s, i) <= s.len(),
    decreases s.len() - i,
{
    if i < s.len() && s[i] != '\n' {
        lemma_line_end_bounds(s, i + 1);
    }
}

/// The cells of one line `v[from..to]`, and whether the line holds a pipe.
#[verifier::loop_isolation(false)]
fn split_cells(v: &Vec<char>, from: usize, to: usize) -> (r: (bool, Vec<String>))
    requires
        from <= to <= v@.len(),
    ensures
        r.0 == has_pipe(v@.subrange(from as int, to as int)),
        strs_view(r.1@) == cells_from(
            v@.subrange(from as int, to as int),
            0,
            Seq::empty(),
            Seq::empty(),
        ),
{
    let ghost line = v@.subrange(from as int, to as int);
    let mut acc: Vec<String> = Vec::new();
    let mut cur: String = String::new();
    let mut saw_pipe = false;
    let mut k: usize = from;
    proof {
        assert(strs_view(acc@) =~= Seq::<Seq<char>>::empty());
    }
    while k < to
        invariant
            from <= k <= to <= v@.len(),
            line == v@.subrange(from as int, to as int),
            saw_pipe == (exists|t: int| 0 <= t < k - from && line[t] == '|'),
            cells_from(line, 0, Seq::empty(), Seq::empty()) == cells_from(
                line,
                (k - from) as int,
                cur@,
                strs_view(acc@),
            ),
        decreases to - k,
    {
        let c = v[k];
        proof {
            assert(line[(k - from) as int] == v@[k as int]);
        }
        let ghost cur0 = cur@;
        let ghost acc0 = strs_view(acc@);
        if c == '|' {
            saw_pipe = true;
            if !cur.as_str().is_empty() {
                let ghost before = strs_view(acc@);
                let ghost curv = cur@;
                acc.push(cur);
                proof {
                    assert(strs_view(acc@) =~= before.push(curv));
                }
                cur = String::new();
                proof {
                    assert(cells_from(line, (k - from) as int, cur0, acc0) == cells_from(
                        line,
                        k - from + 1,
                        cur@,
                        strs_view(acc@),
                    ));
                }
            } else {
                proof {
                    assert(cur0 =~= Seq::<char>::empty());
                    assert(cells_from(line, (k - from) as int, cur0, acc0) == cells_from(
                        line,
                        k - from + 1,
                        cur@,
                        strs_view(acc@),
                    ));
                }
            }
        } else if c == ' ' || c == '\t' || c == '\r' {
        } else {
            crate::text::push_char(&mut cur, c);
        }
        k = k + 1;
    }
    if !cur.as_str().is_empty() {
        let ghost before = strs_view(acc@);
        let ghost curv = cur@;
        acc.push(cur);
        proof {
            assert(strs_view(acc@) =~= before.push(curv));
        }
        (saw_pipe, acc)
    } else {
        proof {
            assert(cur@ =~= Seq::<char>::empty());
        }
        (saw_pipe, acc)
    }
}

/// Reads one table cell under a header type.
#[verifier::loop_isolation(false)]
fn parse_cell(head: &OutType, cell: &String) -> (r: Result<OutType, String>)
    ensures
        match r {
            Ok(c) => parse_cell_spec(head@, cell@) == Some(c@),
            Err(_) => parse_cell_spec(head@, cell@) is None,
        },
{
    let chars = to_chars(cell.as_str());
    let n = chars.len();
    let tock = n > 0 && chars[n - 1] == '+';
    let end = if tock {
        n - 1
    } else {
        n
    };
    let ghost val = if tock {
        cell@.drop_last()
    } else {
        cell@
    };
    proof {
        assert(val =~= chars@.subrange(0, end as int));
    }
    match head {
        OutType::Clock(_) => {
            let mut k: usize = 0;
            while k < end
                invariant
                    k <= end <= chars@.len(),
                    forall|t: int| 0 <= t < k ==> is_digit(#[trigger] chars@[t]),
                decreases end - k,
            {
                if !is_digit_exec(chars[k]) {
                    proof {
                        assert(val[k as int] == chars@[k as int]);
                        assert(!all_digits(val));
                    }
                    return Err(String::from_str("a clock cell is not a number"));
                }
                k = k + 1;
            }
            if end == 0 {
                return Err(String::from_str("a clock cell is empty"));
            }
            proof {
                assert(all_digits(val));
            }
            match crate::text::digits_to_usize(&chars, 0, end) {
                Some(num) => Ok(OutType::Clock((num, tock))),
                None => Err(String::from_str("a clock cell is out of range")),
            }
        },
        OutType::Binary(_) => {
            let mut bits: Vec<bool> = Vec::new();
            let mut k: usize = 0;
            while k < end
                invariant
                    k <= end <= chars@.len(),
                    bits@.len() == k,
                    forall|t: int|
                        0 <= t < k ==> (chars@[t] == '0' || chars@[t] == '1') && bits@[t] == (
                        chars@[t] == '1'),
                decreases end - k,
            {
                let c = chars[k];
                if c == '0' {
                    bits.push(false);
                } else if c == '1' {
                    bits.push(true);
                } else {
                    proof {
                        assert(val[k as int] == chars@[k as int]);
                        assert(!all_bits(val));
                    }
                    return Err(String::from_str("a binary cell holds a character besides 0 and 1"));
                }
                k = k + 1;
            }
            proof {
                assert(all_bits(val));
                assert(bits@ =~= bits_of(val));
            }
            Ok(OutType::Binary(bits))
        },
        OutType::Decimal(_) => {
            let neg = end > 0 && chars[0] == '-';
            let start: usize = if neg {
                1
            } else {
                0
            };
            let ghost mag = if neg {
                val.drop_first()
            } else {
                val
            };
            proof {
                assert(mag =~= chars@.subrange(start as int, end as int));
            }
            if start >= end {
                return Err(String::from_str("a decimal cell is empty"));
            }
            let mut k: usize = start;
            while k < end
                invariant
                    start <= k <= end <= chars@.len(),
                    forall|t: int| start <= t < k ==> is_digit(#[trigger] chars@[t]),
                decreases end - k,
            {
                if !is_digit_exec(chars[k]) {
                    proof {
                        assert(mag[k - start] == chars@[k as int]);
                        assert(!all_digits(mag));
                    }
                    return Err(String::from_str("a decimal cell is not a number"));
                }
                k = k + 1;
            }
            proof {
                assert(all_digits(mag));
            }
            let num = match crate::text::digits_to_usize(&chars, start, end) {
                Some(num) => num,
                None => {
                    return Err(String::from_str("a decimal cell is out of range"));
                },
            };
            if neg {
                if num > (isize::MAX as usize) + 1 {
                    return Err(String::from_str("a decimal cell is out of range"));
                }
                let d: isize = if num == (isize::MAX as usize) + 1 {
                    isize::MIN
                } else {
                    -(num as isize)
                };
                Ok(OutType::Decimal(d))
            } else {
                if num > isize::MAX as usize {
                    return Err(String::from_str("a decimal cell is out of range"));
                }
                Ok(OutType::Decimal(num as isize))
            }
        },
    }
}

/// First position at or after `i` holding a character besides `0` and
/// `1`, or the end.
pub open spec fn first_non_bit(l: Seq<char>, i: int) -> int
    decreases l.len() - i,
    when 0 <= i <= l.len()
{
    if i < l.len() && (l[i] == '0' || l[i] == '1') {
        first_non_bit(l, i + 1)
    } else {
        i
    }
}

/// The message a bad bit row fails with, naming the offending character.
pub open spec fn bad_bit_msg(c: char) -> Seq<char> {
    "unexpected character "@.push(c) + ", expected 0 or 1"@
}

/// Reads a run of `0`/`1` characters as a bit row; any other character
/// fails, named in the message.
#[verifier::loop_isolation(false)]
pub fn parse_bool(val: String) -> (r: Result<Vec<bool>, String>)
    ensures
        match r {
            Ok(bits) => all_bits(val@) && bits@ == bits_of(val@),
            Err(m) => !all_bits(val@) && m@ == bad_bit_msg(val@[first_non_bit(val@, 0)]),
        },
{
    let chars = to_chars(val.as_str());
    let mut bits: Vec<bool> = Vec::new();
    let mut k: usize = 0;
    while k < chars.len()
        invariant
            k <= chars@.len(),
            chars@ == val@,
            bits@.len() == k,
            first_non_bit(val@, 0) == first_non_bit(val@, k as int),
            forall|t: int|
                0 <= t < k ==> (chars@[t] == '0' || chars@[t] == '1') && bits@[t] == (chars@[t]
                    == '1'),
        decreases chars@.len() - k,
    {
        let c = chars[k];
        if c == '0' {
            bits.push(false);
        } else if c == '1' {
            bits.push(true);
        } else {
            proof {
                assert(!all_bits(val@));
                assert(first_non_bit(val@, k as int) == k as int);
            }
            let mut m = String::from_str("unexpected character ");
            crate::text::push_char(&mut m, c);
            m.append(", expected 0 or 1");
            return Err(m);
        }
        k = k + 1;
    }
    proof {
        assert(all_bits(val@));
        assert(bits@ =~= bits_of(val@));
    }
    Ok(bits)
}

} // verus!
