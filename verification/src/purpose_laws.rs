//! Properties that say what single operations are for, stated over their
//! inputs and results.

use vstd::prelude::*;
use crate::app::{parse_value, value_read, Action, App, Mode};
use crate::event::{key_post, KeyCode, KeyPress};
use crate::format::{format_of_extension, Format};
use crate::sheet::{described, is_text, nulls_in, ColumnStats, Sheet};
use crate::table::{laid_out, Area, GridLayout};
use crate::text::{
    all_digits, decimal, digit_char, digits_value, int_text_value, lower, parsed_i64, signed_decimal,
    spec_is_space, trim, trim_end, trim_start,
};
use crate::value::{display_text, DType, Value};
use crate::view::Snapshot;
use crate::frame::Frame;
use crate::viewport::Viewport;

verus! {

proof fn lemma_nulls_bounds(s: Sheet, c: int, n: int)
    requires
        0 <= n,
    ensures
        nulls_in(s, c, n) <= n,
        (forall|r: usize| r < n ==> !#[trigger] s.baked_null(r, c as usize)) ==> nulls_in(s, c, n) == 0,
        (forall|r: usize| r < n ==> #[trigger] s.baked_null(r, c as usize)) ==> nulls_in(s, c, n) == n,
    decreases n,
{
    if n > 0 {
        lemma_nulls_bounds(s, c, n - 1);
    }
}

/// In the summary sheet, each source column's `count` and `null_count`
/// rows are decimal numbers that add up to the sheet's height: every cell,
/// edits baked in, is counted once, as a value or as a null. A column
/// without nulls counts every row, and an all-null one counts none.
pub proof fn law_describe_counts_every_row_once(s: Sheet, stats: Seq<ColumnStats>, f: Frame, c: int)
    requires
        described(s, stats, f),
        0 <= c < s.base().ncols(),
    ensures
        exists|n: nat, k: nat|
            {
                &&& is_text(f.at(0, c + 1), decimal(n))
                &&& is_text(f.at(1, c + 1), decimal(k))
                &&& n + k == s.base().height
                &&& (forall|r: usize| r < s.base().height ==> !#[trigger] s.baked_null(r, c as usize))
                    ==> k == 0
                &&& (forall|r: usize| r < s.base().height ==> #[trigger] s.baked_null(r, c as usize))
                    ==> n == 0
            },
{
    let h = s.base().height as int;
    lemma_nulls_bounds(s, c, h);
    let k = nulls_in(s, c, h);
    let n = (h - k) as nat;
    assert(is_text(f.at(0, c + 1), decimal(n)));
    assert(is_text(f.at(1, c + 1), decimal(k)));
}

/// Each format is chosen by exactly the extensions that name it: `json`
/// alone names a JSON document, `ndjson` and `jsonl` name line-delimited
/// JSON, `parquet` and `pq` name Parquet, `csv` names CSV, and nothing else
/// names a format.
pub proof fn law_formats_by_extension(e: Seq<char>)
    ensures
        format_of_extension(e) == Some(Format::Json) <==> e == "json"@,
        format_of_extension(e) == Some(Format::NdJson) <==> (e == "ndjson"@ || e == "jsonl"@),
        format_of_extension(e) == Some(Format::Parquet) <==> (e == "parquet"@ || e == "pq"@),
        format_of_extension(e) == Some(Format::Csv) <==> e == "csv"@,
        format_of_extension(e) is None <==> !(e == "json"@ || e == "ndjson"@ || e == "jsonl"@
            || e == "parquet"@ || e == "pq"@ || e == "csv"@),
{
    reveal_strlit("json");
    reveal_strlit("ndjson");
    reveal_strlit("jsonl");
    reveal_strlit("parquet");
    reveal_strlit("pq");
    reveal_strlit("csv");
    assert("json"@[0] != "csv"@[0]);
    assert("pq"@.len() != "csv"@.len());
    assert("json"@.len() == 4 && "ndjson"@.len() == 6 && "jsonl"@.len() == 5);
    assert("parquet"@.len() == 7 && "pq"@.len() == 2 && "csv"@.len() == 3);
}

/// Paging in Normal mode moves the selection by a page (the window's rows,
/// at least one): PageUp never moves it down, landing a page higher or on
/// the first row; PageDown never moves it up from a shown row, landing a
/// page lower or on the last row.
pub proof fn law_paging_moves_by_a_page(o: App, n: App, key: KeyPress, a: Action)
    requires
        o.wf(),
        o.mode == Mode::Normal,
        key.code == KeyCode::PageUp || key.code == KeyCode::PageDown,
        key_post(o, n, key, a),
    ensures
        ({
            let step: int = if o.page_rows > 1 {
                o.page_rows as int
            } else {
                1
            };
            let sel = o.viewport.sel_row as int;
            &&& key.code == KeyCode::PageUp ==> n.viewport.sel_row <= sel
                && n.viewport.sel_row == if sel >= step {
                sel - step
            } else {
                0
            }
            &&& key.code == KeyCode::PageDown && sel < o.nrows() ==> sel <= n.viewport.sel_row
                < o.nrows() && n.viewport.sel_row == if sel + step < o.nrows() {
                sel + step
            } else {
                o.nrows() - 1
            }
        }),
{
}

/// In a grid laid out while a cell is edited, the shown cell at row `k`,
/// column `i` holds the edit buffer (with a caret) exactly where its
/// absolute row and column are the selected ones; every other cell of a
/// real column shows its own value, or the null sentinel.
pub proof fn law_edit_buffer_shows_at_the_selection(
    r: GridLayout,
    snap: Snapshot,
    area: Area,
    vp: Viewport,
    buf: Seq<char>,
    k: int,
    i: int,
)
    requires
        laid_out(r, snap, area, vp, Some(buf)),
        0 <= k < r.rows@.len(),
        0 <= i < r.widths@.len(),
        vp.col_offset + i < snap.columns@.len(),
    ensures
        snap.row_offset + k == vp.sel_row && vp.col_offset + i == vp.sel_col
            ==> r.rows@[k].cells@[i].text@ == buf.push('▏'),
        !(snap.row_offset + k == vp.sel_row && vp.col_offset + i == vp.sel_col) ==> ({
            let row = snap.rows@[k]@;
            let c = vp.col_offset + i;
            r.rows@[k].cells@[i].text@ == if c < row.len() && !(row[c] is Null) {
                display_text(row[c])
            } else {
                seq!['<', 'n', 'u', 'l', 'l', '>']
            }
        }),
{
    assert(crate::table::cell_is(r.rows@[k].cells@[i], crate::table::cell_spec(snap, vp, Some(buf), k, vp.col_offset + i)));
}

/// The display text of a boolean reads back as that boolean when typed into
/// a boolean column.
pub proof fn law_bool_text_reads_back(b: bool, r: Result<Value, String>)
    requires
        value_read(display_text(Value::Bool(b)), DType::Bool, None, r),
    ensures
        r == Ok::<Value, String>(Value::Bool(b)),
{
    reveal_strlit("true");
    reveal_strlit("false");
    reveal_strlit("t");
    reveal_strlit("1");
    reveal_strlit("yes");
    reveal_strlit("y");
    reveal_strlit("f");
    reveal_strlit("0");
    reveal_strlit("no");
    reveal_strlit("n");
    let t = display_text(Value::Bool(b));
    assert(trim_start(t) == t);
    assert(trim_end(t) == t);
    assert(trim(t) == t);
    assert(lower(t) =~= t);
    assert("true"@[0] != "false"@[0]);
}

proof fn lemma_digit_char(d: nat)
    requires
        d < 10,
    ensures
        '0' <= digit_char(d) <= '9',
        (digit_char(d) as u32) - ('0' as u32) == d,
{
}

proof fn lemma_decimal_digits(n: nat)
    ensures
        decimal(n).len() > 0,
        all_digits(decimal(n)),
        digits_value(decimal(n)) == n,
    decreases n,
{
    if n < 10 {
        lemma_digit_char(n);
        assert(decimal(n).drop_last() =~= Seq::<char>::empty());
        assert(digits_value(decimal(n)) == digits_value(decimal(n).drop_last()) * 10 + ((decimal(n).last() as u32) - ('0' as u32)) as nat);
    } else {
        lemma_decimal_digits(n / 10);
        lemma_digit_char(n % 10);
        let s = decimal(n);
        assert(s.drop_last() =~= decimal(n / 10));
        assert(s.last() == digit_char(n % 10));
        assert(digits_value(s) == digits_value(s.drop_last()) * 10 + ((s.last() as u32) - ('0' as u32)) as nat);
        assert(n == (n / 10) * 10 + n % 10) by (nonlinear_arith);
    }
}

proof fn lemma_signed_decimal_parses(i: i64)
    ensures
        parsed_i64(signed_decimal(i as int)) == Some(i),
        trim(signed_decimal(i as int)) == signed_decimal(i as int),
{
    let t = signed_decimal(i as int);
    if i < 0 {
        let m = (-(i as int)) as nat;
        lemma_decimal_digits(m);
        assert(t.drop_first() =~= decimal(m));
        assert(t[0] == '-');
        assert(int_text_value(t, true) == Some(i as int));
        assert(!spec_is_space(t.last())) by {
            assert(t.last() == decimal(m).last());
            assert(all_digits(decimal(m)));
            assert(crate::text::is_digit(decimal(m)[decimal(m).len() - 1]));
        }
    } else {
        lemma_decimal_digits(i as nat);
        assert(crate::text::is_digit(t[0]));
        assert(crate::text::is_digit(t[t.len() - 1]));
    }
    assert(trim_start(t) == t);
    assert(trim_end(t) == t);
}

/// The display text of an integer reads back as that integer when typed
/// into an integer column.
pub proof fn law_int_text_reads_back(i: i64, r: Result<Value, String>)
    requires
        value_read(display_text(Value::Int(i)), DType::Int, None, r),
    ensures
        r == Ok::<Value, String>(Value::Int(i)),
{
    lemma_signed_decimal_parses(i);
}

/// The cursor keys of Normal mode move the selection one cell: down (`j`)
/// and up (`k`) by a row within the sheet, left (`h`) and right (`l`) by a
/// column, right stopping on the append slot past the last column; `Home`
/// selects the first row and `0` the first column.
pub proof fn law_cursor_keys_move_one_cell(o: App, n: App, key: KeyPress, a: Action)
    requires
        o.wf(),
        o.mode == Mode::Normal,
        key_post(o, n, key, a),
    ensures
        ({
            let sel = o.viewport.sel_row as int;
            let col = o.viewport.sel_col as int;
            &&& (key.code == KeyCode::Down || key.code == KeyCode::Char('j')) && sel < o.nrows()
                ==> n.viewport.sel_row == if sel + 1 < o.nrows() {
                sel + 1
            } else {
                sel
            }
            &&& (key.code == KeyCode::Up || key.code == KeyCode::Char('k')) ==> n.viewport.sel_row
                == if sel > 0 {
                sel - 1
            } else {
                0
            }
            &&& (key.code == KeyCode::Left || key.code == KeyCode::Char('h')) ==> n.viewport.sel_col
                == if col > 0 {
                col - 1
            } else {
                0
            }
            &&& (key.code == KeyCode::Right || key.code == KeyCode::Char('l')) && col <= o.ncols()
                ==> n.viewport.sel_col == if col < o.ncols() {
                col + 1
            } else {
                col
            }
            &&& key.code == KeyCode::Home ==> n.viewport.sel_row == 0
            &&& key.code == KeyCode::Char('0') ==> n.viewport.sel_col == 0
            &&& key.code != KeyCode::Char(':') && key.code != KeyCode::Char('i') && key.code
                != KeyCode::Enter ==> n.mode == Mode::Normal
        }),
{
}

/// In the summary sheet, the `mean`, `std` and `median` rows of a source
/// column hold the supplied figures (blank for a date or datetime column,
/// whose figures would be day or microsecond counts), and the `min` and
/// `max` rows the display text of the supplied extremes.
pub proof fn law_describe_places_the_figures(s: Sheet, stats: Seq<ColumnStats>, f: Frame, c: int)
    requires
        described(s, stats, f),
        0 <= c < s.base().ncols(),
    ensures
        ({
            let temporal = s.base().dtype_of(c) == DType::Date || s.base().dtype_of(c) == DType::Datetime;
            &&& is_text(f.at(2, c + 1), if temporal { Seq::empty() } else { stats[c].mean@ })
            &&& is_text(f.at(3, c + 1), if temporal { Seq::empty() } else { stats[c].std@ })
            &&& is_text(f.at(5, c + 1), if temporal { Seq::empty() } else { stats[c].median@ })
            &&& is_text(f.at(4, c + 1), display_text(stats[c].min))
            &&& is_text(f.at(6, c + 1), display_text(stats[c].max))
            &&& f.name_of(c + 1) == s.base().name_of(c)
        }),
{
    assert(is_text(f.at(2, c + 1), crate::sheet::stat_text(s, stats[c], c, 2)));
    assert(is_text(f.at(3, c + 1), crate::sheet::stat_text(s, stats[c], c, 3)));
    assert(is_text(f.at(4, c + 1), crate::sheet::stat_text(s, stats[c], c, 4)));
    assert(is_text(f.at(5, c + 1), crate::sheet::stat_text(s, stats[c], c, 5)));
    assert(is_text(f.at(6, c + 1), crate::sheet::stat_text(s, stats[c], c, 6)));
}

} // verus!
