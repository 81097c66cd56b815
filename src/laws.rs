use crate::color::ColorCode;
use crate::grid::{is_grid, ScreenChar, BUFFER_HEIGHT, BUFFER_WIDTH};
use crate::writer::{
    after_byte, after_bytes, blank, blank_row, cell_of, is_shown_as_is, scrolled, shown,
    shown_byte, NEWLINE, PLACEHOLDER,
};
use vstd::prelude::*;

verus! {

/// The cells that show the bytes `bs` in attribute `attr`.
pub open spec fn cells(bs: Seq<u8>, attr: ColorCode) -> Seq<ScreenChar> {
    bs.map_values(|b: u8| cell_of(b, attr))
}

/// Every byte of `bs` is printable ASCII, so none is a newline.
pub open spec fn all_printable(bs: Seq<u8>) -> bool {
    forall|i: int| 0 <= i < bs.len() ==> 0x20 <= #[trigger] bs[i] && bs[i] <= 0x7e
}

/// Writing `a` and then `b` leaves the grid and the cursor exactly as writing
/// `a + b` in one go: a write is a function of the state and the bytes alone.
pub proof fn lemma_writes_compose(
    g: Seq<Seq<ScreenChar>>,
    col: int,
    attr: ColorCode,
    a: Seq<u8>,
    b: Seq<u8>,
)
    ensures
        after_bytes(g, col, attr, a + b) == ({
            let mid = after_bytes(g, col, attr, a);
            after_bytes(mid.0, mid.1, attr, b)
        }),
    decreases b.len(),
{
    if b.len() == 0 {
        assert(a + b =~= a);
    } else {
        assert((a + b).drop_last() =~= a + b.drop_last());
        assert((a + b).last() == b.last());
        lemma_writes_compose(g, col, attr, a, b.drop_last());
    }
}

/// Writing a single byte is one step of the writer.
pub proof fn lemma_single_byte(g: Seq<Seq<ScreenChar>>, col: int, attr: ColorCode, b: u8)
    ensures
        after_bytes(g, col, attr, seq![b]) == after_byte(g, col, attr, b),
{
    assert(seq![b].drop_last() =~= Seq::<u8>::empty());
    assert(after_bytes(g, col, attr, Seq::<u8>::empty()) == (g, col));
}

/// A printable byte lands in the current attribute at the cursor of the bottom
/// row (at its first cell when the row was full, after the scroll), and the
/// cursor moves just past it.
pub proof fn lemma_printable_byte_lands(g: Seq<Seq<ScreenChar>>, col: int, attr: ColorCode, b: u8)
    requires
        is_grid(g),
        0 <= col <= BUFFER_WIDTH,
        0x20 <= b <= 0x7e,
    ensures
        ({
            let at = if col < BUFFER_WIDTH {
                col
            } else {
                0
            };
            let after = after_byte(g, col, attr, b);
            &&& after.0[BUFFER_HEIGHT - 1][at] == cell_of(b, attr)
            &&& after.1 == at + 1
            &&& is_grid(after.0)
        }),
{
    assert(blank_row(attr).len() == BUFFER_WIDTH);
}

/// A newline is exactly one scroll: each row takes the content of the row
/// below it, the bottom row becomes blank in the current attribute, and the
/// cursor goes back to the first column.
pub proof fn lemma_newline_scrolls(g: Seq<Seq<ScreenChar>>, col: int, attr: ColorCode)
    requires
        is_grid(g),
    ensures
        ({
            let after = after_byte(g, col, attr, NEWLINE);
            &&& after.1 == 0
            &&& is_grid(after.0)
            &&& forall|r: int| 0 <= r < BUFFER_HEIGHT - 1 ==> #[trigger] after.0[r] == g[r + 1]
            &&& forall|c: int|
                0 <= c < BUFFER_WIDTH ==> #[trigger] after.0[BUFFER_HEIGHT - 1][c] == blank(attr)
        }),
{
}

/// A byte that is neither printable ASCII nor a newline is displayed as the
/// placeholder glyph: writing it as text is writing the placeholder, and
/// what lands differs from the byte itself unless that byte is the
/// placeholder.
pub proof fn lemma_unprintable_is_placeholder(
    g: Seq<Seq<ScreenChar>>,
    col: int,
    attr: ColorCode,
    b: u8,
)
    requires
        !is_shown_as_is(b),
    ensures
        shown_byte(b) == PLACEHOLDER,
        b != PLACEHOLDER ==> shown_byte(b) != b,
        after_bytes(g, col, attr, shown(seq![b])) == after_byte(g, col, attr, PLACEHOLDER),
{
    assert(shown(seq![b]) =~= seq![PLACEHOLDER]);
    lemma_single_byte(g, col, attr, PLACEHOLDER);
}

/// Grid after `k` newlines: the rows from `k` on have moved to the top and
/// `k` blank rows fill the bottom.
proof fn lemma_newlines(g: Seq<Seq<ScreenChar>>, col: int, attr: ColorCode, k: nat)
    requires
        is_grid(g),
        k <= BUFFER_HEIGHT,
    ensures
        after_bytes(g, col, attr, Seq::new(k, |_i: int| NEWLINE)).0 == g.subrange(
            k as int,
            BUFFER_HEIGHT as int,
        ) + Seq::new(k, |_i: int| blank_row(attr)),
        k > 0 ==> after_bytes(g, col, attr, Seq::new(k, |_i: int| NEWLINE)).1 == 0,
    decreases k,
{
    if k == 0 {
        assert(Seq::new(k, |_i: int| NEWLINE) =~= Seq::<u8>::empty());
        assert(g.subrange(0, BUFFER_HEIGHT as int) + Seq::new(k, |_i: int| blank_row(attr)) =~= g);
    } else {
        let km = (k - 1) as nat;
        assert(Seq::new(k, |_i: int| NEWLINE).drop_last() =~= Seq::new(km, |_i: int| NEWLINE));
        lemma_newlines(g, col, attr, km);
        let prev = g.subrange(km as int, BUFFER_HEIGHT as int) + Seq::new(
            km,
            |_i: int| blank_row(attr),
        );
        assert(scrolled(prev, attr) =~= g.subrange(k as int, BUFFER_HEIGHT as int) + Seq::new(
            k,
            |_i: int| blank_row(attr),
        ));
    }
}

/// Writing as many newlines as the grid has rows leaves every cell blank in
/// the current attribute and the cursor at the first column, whatever the
/// grid held before.
pub proof fn lemma_page_of_newlines_blanks(g: Seq<Seq<ScreenChar>>, col: int, attr: ColorCode)
    requires
        is_grid(g),
    ensures
        after_bytes(g, col, attr, Seq::new(BUFFER_HEIGHT as nat, |_i: int| NEWLINE)) == (
            Seq::new(BUFFER_HEIGHT as nat, |_i: int| blank_row(attr)),
            0int,
        ),
{
    lemma_newlines(g, col, attr, BUFFER_HEIGHT as nat);
    assert(g.subrange(BUFFER_HEIGHT as int, BUFFER_HEIGHT as int) + Seq::new(
        BUFFER_HEIGHT as nat,
        |_i: int| blank_row(attr),
    ) =~= Seq::new(BUFFER_HEIGHT as nat, |_i: int| blank_row(attr)));
}

/// Printable bytes that fit in the rest of the bottom row land there one
/// after the other, from the cursor on, with no scroll.
proof fn lemma_fill(g: Seq<Seq<ScreenChar>>, col: int, attr: ColorCode, bs: Seq<u8>)
    requires
        is_grid(g),
        0 <= col,
        col + bs.len() <= BUFFER_WIDTH,
        all_printable(bs),
    ensures
        after_bytes(g, col, attr, bs) == (
            g.update(
                BUFFER_HEIGHT - 1,
                g[BUFFER_HEIGHT - 1].subrange(0, col) + cells(bs, attr) + g[BUFFER_HEIGHT
                    - 1].subrange(col + bs.len(), BUFFER_WIDTH as int),
            ),
            col + bs.len(),
        ),
    decreases bs.len(),
{
    let bottom = g[BUFFER_HEIGHT - 1];
    if bs.len() == 0 {
        assert(bottom.subrange(0, col) + cells(bs, attr) + bottom.subrange(
            col,
            BUFFER_WIDTH as int,
        ) =~= bottom);
        assert(g.update(BUFFER_HEIGHT - 1, bottom) =~= g);
    } else {
        let n = bs.len() as int;
        let front = bs.drop_last();
        lemma_fill(g, col, attr, front);
        let g1 = g.update(
            BUFFER_HEIGHT - 1,
            bottom.subrange(0, col) + cells(front, attr) + bottom.subrange(
                col + n - 1,
                BUFFER_WIDTH as int,
            ),
        );
        assert(0x20 <= bs[n - 1] <= 0x7e);
        assert(g1[BUFFER_HEIGHT - 1].update(col + n - 1, cell_of(bs.last(), attr))
            =~= bottom.subrange(0, col) + cells(bs, attr) + bottom.subrange(
            col + n,
            BUFFER_WIDTH as int,
        ));
        assert(g1.update(
            BUFFER_HEIGHT - 1,
            g1[BUFFER_HEIGHT - 1].update(col + n - 1, cell_of(bs.last(), attr)),
        ) =~= g.update(
            BUFFER_HEIGHT - 1,
            bottom.subrange(0, col) + cells(bs, attr) + bottom.subrange(
                col + n,
                BUFFER_WIDTH as int,
            ),
        ));
    }
}

/// From a full bottom row, printable bytes that fit in one row cause exactly
/// one scroll and then fill the new bottom row from its first cell.
proof fn lemma_wrap(g: Seq<Seq<ScreenChar>>, attr: ColorCode, bs: Seq<u8>)
    requires
        is_grid(g),
        1 <= bs.len() <= BUFFER_WIDTH,
        all_printable(bs),
    ensures
        after_bytes(g, BUFFER_WIDTH as int, attr, bs) == (
            scrolled(g, attr).update(
                BUFFER_HEIGHT - 1,
                cells(bs, attr) + blank_row(attr).subrange(bs.len() as int, BUFFER_WIDTH as int),
            ),
            bs.len() as int,
        ),
{
    let n = bs.len() as int;
    let first = seq![bs[0]];
    let rest = bs.drop_first();
    assert(bs =~= first + rest);
    lemma_writes_compose(g, BUFFER_WIDTH as int, attr, first, rest);
    lemma_single_byte(g, BUFFER_WIDTH as int, attr, bs[0]);
    assert(0x20 <= bs[0] <= 0x7e);
    let g1 = after_byte(g, BUFFER_WIDTH as int, attr, bs[0]).0;
    assert(blank_row(attr).len() == BUFFER_WIDTH);
    assert(is_grid(g1));
    assert(all_printable(rest)) by {
        assert forall|i: int| 0 <= i < rest.len() implies 0x20 <= #[trigger] rest[i] && rest[i]
            <= 0x7e by {
            assert(rest[i] == bs[i + 1]);
        }
    }
    lemma_fill(g1, 1, attr, rest);
    assert(g1[BUFFER_HEIGHT - 1].subrange(0, 1) + cells(rest, attr) + g1[BUFFER_HEIGHT
        - 1].subrange(n, BUFFER_WIDTH as int) =~= cells(bs, attr) + blank_row(attr).subrange(
        n,
        BUFFER_WIDTH as int,
    ));
    assert(g1.update(
        BUFFER_HEIGHT - 1,
        cells(bs, attr) + blank_row(attr).subrange(n, BUFFER_WIDTH as int),
    ) =~= scrolled(g, attr).update(
        BUFFER_HEIGHT - 1,
        cells(bs, attr) + blank_row(attr).subrange(n, BUFFER_WIDTH as int),
    ));
}

/// A row's worth of printable bytes written at the start of the bottom row
/// fills that row with exactly those bytes and leaves the cursor past the last
/// column; no scroll happens yet.
pub proof fn lemma_row_of_bytes_from_line_start(
    g: Seq<Seq<ScreenChar>>,
    attr: ColorCode,
    bs: Seq<u8>,
)
    requires
        is_grid(g),
        bs.len() == BUFFER_WIDTH,
        all_printable(bs),
    ensures
        after_bytes(g, 0, attr, bs) == (
            g.update(BUFFER_HEIGHT - 1, cells(bs, attr)),
            BUFFER_WIDTH as int,
        ),
{
    lemma_fill(g, 0, attr, bs);
    let bottom = g[BUFFER_HEIGHT - 1];
    assert(bottom.subrange(0, 0) + cells(bs, attr) + bottom.subrange(
        BUFFER_WIDTH as int,
        BUFFER_WIDTH as int,
    ) =~= cells(bs, attr));
}

/// A row's worth of printable bytes written with the cursor past the start of
/// the bottom row causes exactly one scroll: the bytes before the wrap finish
/// the old bottom row, which moves up with the rest, and the new bottom row
/// holds only the bytes written after the wrap, then blanks; the cursor ends
/// in the column where it started.
pub proof fn lemma_row_of_bytes_wraps_once(
    g: Seq<Seq<ScreenChar>>,
    col: int,
    attr: ColorCode,
    bs: Seq<u8>,
)
    requires
        is_grid(g),
        0 < col <= BUFFER_WIDTH,
        bs.len() == BUFFER_WIDTH,
        all_printable(bs),
    ensures
        ({
            let k = BUFFER_WIDTH - col;
            let finished = g.update(
                BUFFER_HEIGHT - 1,
                g[BUFFER_HEIGHT - 1].subrange(0, col) + cells(bs.subrange(0, k), attr),
            );
            after_bytes(g, col, attr, bs) == (
                scrolled(finished, attr).update(
                    BUFFER_HEIGHT - 1,
                    cells(bs.subrange(k, BUFFER_WIDTH as int), attr) + blank_row(attr).subrange(
                        col,
                        BUFFER_WIDTH as int,
                    ),
                ),
                col,
            )
        }),
{
    let k = BUFFER_WIDTH - col;
    let before = bs.subrange(0, k);
    let after = bs.subrange(k, BUFFER_WIDTH as int);
    assert(bs =~= before + after);
    lemma_writes_compose(g, col, attr, before, after);
    assert(all_printable(before));
    assert(all_printable(after)) by {
        assert forall|i: int| 0 <= i < after.len() implies 0x20 <= #[trigger] after[i]
            && after[i] <= 0x7e by {
            assert(after[i] == bs[i + k]);
        }
    }
    lemma_fill(g, col, attr, before);
    let bottom = g[BUFFER_HEIGHT - 1];
    let finished = g.update(BUFFER_HEIGHT - 1, bottom.subrange(0, col) + cells(before, attr));
    assert(bottom.subrange(0, col) + cells(before, attr) + bottom.subrange(
        BUFFER_WIDTH as int,
        BUFFER_WIDTH as int,
    ) =~= bottom.subrange(0, col) + cells(before, attr));
    assert(is_grid(finished));
    lemma_wrap(finished, attr, after);
}

} // verus!
