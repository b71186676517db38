//! The status line at the bottom of the screen: the mode, the cursor
//! position, and feedback.

use vstd::prelude::*;
use crate::app::{App, Mode};
use crate::text::{chars_of, concat, decimal, decimal_of, string_of};

verus! {

/// The status line: its text, and whether it is drawn reversed (every mode
/// but Command, whose line is the `:` input line).
#[derive(Debug)]
pub struct StatusLine {
    pub text: String,
    pub reversed: bool,
}

/// The hint shown in Normal mode when there is nothing else to say.
pub open spec fn help_text() -> Seq<char> {
    " (i edit · aa/dd row · :eval · :w save · :q quit) "@
}

/// The selected column as shown: `0` without columns, `+` on the append
/// slot, else its 1-based number.
pub open spec fn col_text(sel_col: usize, cols: nat) -> Seq<char> {
    if cols == 0 {
        seq!['0']
    } else if sel_col >= cols {
        seq!['+']
    } else {
        decimal((sel_col + 1) as nat)
    }
}

/// The status text of `a`.
pub open spec fn status_text(a: App) -> Seq<char> {
    match a.mode {
        Mode::Command => seq![':'] + a.command@,
        Mode::Insert => " INSERT   "@ + a.edit@ + "   (Enter commit · Esc cancel)"@ + match a.message {
            Some(m) => "   ⚠ "@ + m@,
            None => Seq::empty(),
        },
        Mode::Normal => {
            let rows = a.nrows();
            let cols = a.ncols();
            // 1-based for display; 0 for an empty sheet rather than 1/0.
            let row = if rows == 0 {
                seq!['0']
            } else {
                decimal((a.viewport.sel_row + 1) as nat)
            };
            " NORMAL   row "@ + row + "/"@ + decimal(rows) + "   col "@ + col_text(a.viewport.sel_col, cols)
                + "/"@ + decimal(cols) + "  "@ + (if a.sheet.shown() is Some {
                " [filtered] "@
            } else {
                Seq::empty()
            }) + match a.pending_key {
                Some(p) => seq![' ', p, '…', ' '],
                None => match a.message {
                    Some(m) => " "@ + m@ + " "@,
                    None => help_text(),
                },
            }
        },
    }
}

/// The status line of `app`.
pub fn status_line(app: &App) -> (r: StatusLine)
    requires
        app.sheet.wf(),
        app.mode == Mode::Normal && app.nrows() > 0 ==> app.viewport.sel_row < usize::MAX,
    ensures
        r.text@ == status_text(*app),
        r.reversed == (app.mode != Mode::Command),
{
    match app.mode {
        Mode::Command => {
            // The bar becomes the `:` input line.
            let mut t: Vec<char> = Vec::new();
            t.push(':');
            let t = concat(&t, &chars_of(app.command.as_str()));
            assert(seq![':'] + app.command@ =~= t@);
            StatusLine { text: string_of(&t), reversed: false }
        },
        Mode::Insert => {
            // The buffer and any reading error.
            let mut t = concat(
                &concat(&chars_of(" INSERT   "), &chars_of(app.edit.as_str())),
                &chars_of("   (Enter commit · Esc cancel)"),
            );
            match &app.message {
                Some(m) => {
                    t = concat(&t, &concat(&chars_of("   ⚠ "), &chars_of(m.as_str())));
                },
                None => {},
            }
            StatusLine { text: string_of(&t), reversed: true }
        },
        Mode::Normal => {
            let (rows, cols) = app.sheet.shape();
            let vp = app.viewport;
            let row = if rows == 0 {
                let z = vec!['0'];
                assert(z@ =~= seq!['0']);
                z
            } else {
                decimal_of(vp.sel_row as u64 + 1)
            };
            // On the append slot, `+` in place of an out-of-range number.
            let col = if cols == 0 {
                let z = vec!['0'];
                assert(z@ =~= seq!['0']);
                z
            } else if vp.sel_col >= cols {
                let p = vec!['+'];
                assert(p@ =~= seq!['+']);
                p
            } else {
                decimal_of(vp.sel_col as u64 + 1)
            };
            let mut t = concat(&chars_of(" NORMAL   row "), &row);
            t = concat(&t, &chars_of("/"));
            t = concat(&t, &decimal_of(rows as u64));
            t = concat(&t, &chars_of("   col "));
            t = concat(&t, &col);
            t = concat(&t, &chars_of("/"));
            t = concat(&t, &decimal_of(cols as u64));
            t = concat(&t, &chars_of("  "));
            if app.sheet.is_filtered() {
                t = concat(&t, &chars_of(" [filtered] "));
            }
            match app.pending_key {
                Some(p) => {
                    let c = vec![' ', p, '…', ' '];
                    assert(c@ =~= seq![' ', p, '…', ' ']);
                    t = concat(&t, &c);
                },
                None => match &app.message {
                    Some(m) => {
                        t = concat(&t, &concat(&concat(&chars_of(" "), &chars_of(m.as_str())), &chars_of(" ")));
                    },
                    None => {
                        t = concat(&t, &chars_of(" (i edit · aa/dd row · :eval · :w save · :q quit) "));
                    },
                },
            }
            StatusLine { text: string_of(&t), reversed: true }
        },
    }
}

} // verus!
