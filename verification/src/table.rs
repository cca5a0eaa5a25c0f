use vstd::prelude::*;
use vstd::string::{StrSliceExecFns, StringExecFns};

verus! {

/// The longest text that a cell shows, in characters.
pub const CELL_CHARS: usize = 15;

/// As many spaces as asked for.
pub open spec fn spaces(n: nat) -> Seq<char> {
    Seq::new(n, |i: int| ' ')
}

/// As many hearts as asked for.
pub open spec fn hearts(n: nat) -> Seq<char> {
    Seq::new(n, |i: int| '♥')
}

/// A cell of a table: the first fifteen characters of the text, filled up with spaces to the
/// width of the column, and two spaces to part it from the next.
pub open spec fn cell(text: Seq<char>, col_width: nat) -> Seq<char> {
    let shown = if text.len() <= CELL_CHARS {
        text
    } else {
        text.take(CELL_CHARS as int)
    };
    let fill = if shown.len() < col_width {
        spaces((col_width - shown.len()) as nat)
    } else {
        Seq::empty()
    };
    shown + fill + seq![' ', ' ']
}

/// The cells of the texts, one after the other.
pub open spec fn cells(texts: Seq<Seq<char>>, col_width: nat) -> Seq<char>
    decreases texts.len(),
{
    if texts.len() == 0 {
        Seq::empty()
    } else {
        cells(texts.drop_last(), col_width) + cell(texts.last(), col_width)
    }
}

/// A row of a table: the cells of the texts, and a line break.
pub open spec fn row(texts: Seq<Seq<char>>, col_width: nat) -> Seq<char> {
    cells(texts, col_width) + seq!['\n']
}

/// Appends `n` times the one character of `unit`.
fn repeat(out: &mut String, unit: &str, n: usize)
    requires
        unit@.len() == 1,
    ensures
        final(out)@ == old(out)@ + Seq::new(n as nat, |i: int| unit@[0]),
{
    let mut i: usize = 0;
    while i < n
        invariant
            i <= n,
            unit@.len() == 1,
            out@ == old(out)@ + Seq::new(i as nat, |j: int| unit@[0]),
        decreases n - i,
    {
        out.append(unit);
        i += 1;
        assert(out@ =~= old(out)@ + Seq::new(i as nat, |j: int| unit@[0]));
    }
    assert(out@ =~= old(out)@ + Seq::new(n as nat, |i: int| unit@[0]));
}

/// As many hearts as there are points of health.
pub fn health_bar(health: u8) -> (bar: String)
    ensures
        bar@ == hearts(health as nat),
{
    let mut bar = String::new();
    proof {
        reveal_strlit("♥");
    }
    repeat(&mut bar, "♥", health as usize);
    assert(bar@ =~= hearts(health as nat));
    bar
}

/// Appends a row of the table: a cell for each text, then a line break.
pub fn table_row(out: &mut String, col_width: usize, texts: &[String])
    ensures
        final(out)@ == old(out)@ + row(texts@.map_values(|t: String| t@), col_width as nat),
{
    let ghost all = texts@.map_values(|t: String| t@);
    let mut i: usize = 0;
    while i < texts.len()
        invariant
            i <= texts.len(),
            all == texts@.map_values(|t: String| t@),
            out@ == old(out)@ + cells(all.take(i as int), col_width as nat),
        decreases texts.len() - i,
    {
        let text: &str = texts[i].as_str();
        let len: usize = text.unicode_len();
        let shown: &str = if len <= CELL_CHARS {
            text
        } else {
            text.substring_char(0, CELL_CHARS)
        };
        let ghost before = out@;
        out.append(shown);
        let shown_len: usize = if len <= CELL_CHARS {
            len
        } else {
            CELL_CHARS
        };
        proof {
            reveal_strlit(" ");
            reveal_strlit("  ");
        }
        if shown_len < col_width {
            repeat(out, " ", col_width - shown_len);
        }
        out.append("  ");
        proof {
            assert(all.take(i as int + 1).drop_last() =~= all.take(i as int));
            assert(all.take(i as int + 1).last() == texts@[i as int]@);
            assert(out@ =~= before + cell(texts@[i as int]@, col_width as nat));
        }
        i += 1;
    }
    proof {
        reveal_strlit("\n");
        assert(all.take(i as int) =~= all);
    }
    out.append("\n");
    assert(out@ =~= old(out)@ + row(all, col_width as nat));
}

} // verus!
