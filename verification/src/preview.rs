//! The textual preview of a transmission: one character per sample, one line
//! per sampled row. It only shows what is sent and takes no part in sending.

use vstd::prelude::*;
use crate::raster::Raster;
use crate::sampler::{Sample, Sampler};
use crate::threshold::{mark, spec_mark, spec_threshold, threshold};

verus! {

/// The preview characters of a row's samples, left to right.
pub open spec fn row_marks(row: Seq<Sample>) -> Seq<char> {
    Seq::new(row.len(), |i: int| spec_mark(spec_threshold(row[i].value as int)))
}

/// The preview line of a row: its characters and a line feed.
pub open spec fn row_preview(row: Seq<Sample>) -> Seq<char> {
    row_marks(row).push('\n')
}

/// The preview of a grid: the lines of its rows, top to bottom.
pub open spec fn grid_preview(grid: Seq<Seq<Sample>>) -> Seq<char>
    decreases grid.len(),
{
    if grid.len() == 0 {
        Seq::empty()
    } else {
        grid_preview(grid.drop_last()) + row_preview(grid.last())
    }
}

/// The preview line of a row: `'0'` for each drawn sample, a space for each
/// skipped one, and a line feed at the end.
pub fn preview_row(row: &Vec<Sample>) -> (line: String)
    ensures
        line@ == row_preview(row@),
{
    let mut line = String::new();
    let mut i: usize = 0;
    while i < row.len()
        invariant
            i <= row@.len(),
            line@ == row_marks(row@).take(i as int),
        decreases row@.len() - i,
    {
        line.push(mark(threshold(row[i].value)));
        i = i + 1;
        proof {
            assert(line@ =~= row_marks(row@).take(i as int));
        }
    }
    line.push('\n');
    proof {
        assert(row_marks(row@).take(i as int) =~= row_marks(row@));
    }
    line
}

/// The preview of a whole image.
pub fn preview(sampler: &Sampler, img: &Raster) -> (text: String)
    ensures
        text@ == grid_preview(sampler.spec_grid(img)),
{
    let ghost grid = sampler.spec_grid(img);
    let rows: u32 = sampler.rows(img);
    let mut text = String::new();
    let mut y: u32 = 0;
    proof {
        assert(grid.take(0) =~= Seq::<Seq<Sample>>::empty());
    }
    while y < rows
        invariant
            y <= rows,
            rows == sampler.spec_rows(img),
            rows == grid.len(),
            grid == sampler.spec_grid(img),
            text@ == grid_preview(grid.take(y as int)),
        decreases rows - y,
    {
        let row = sampler.row(img, y);
        let line = preview_row(&row);
        text.append(line.as_str());
        proof {
            assert(grid.take(y + 1).drop_last() =~= grid.take(y as int));
            assert(grid.take(y + 1).last() == grid[y as int]);
        }
        y = y + 1;
    }
    proof {
        assert(grid.take(y as int) =~= grid);
    }
    text
}

} // verus!
