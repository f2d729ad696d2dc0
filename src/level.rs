//! Layout of a tile layer: rows separated by `;`, cells by `,`, each cell a
//! sprite number; a cell that is not a non-negative number is empty.
use vstd::prelude::*;
use vstd::string::StringSliceAdditionalSpecFns;

verus! {

/// Byte that ends a row of a layer (`;`).
pub const ROW_SEPARATOR: u8 = 59;

/// Byte that ends a cell of a row (`,`).
pub const CELL_SEPARATOR: u8 = 44;

/// The pieces of `s` between occurrences of `sep`, in order; an empty `s`
/// is one empty piece, and `n` separators give `n + 1` pieces.
pub open spec fn split_on(s: Seq<u8>, sep: u8) -> Seq<Seq<u8>>
    decreases s.len(),
{
    if s.len() == 0 {
        seq![Seq::empty()]
    } else {
        let pieces = split_on(s.drop_last(), sep);
        if s.last() == sep {
            pieces.push(Seq::empty())
        } else {
            pieces.update(pieces.len() - 1, pieces.last().push(s.last()))
        }
    }
}

proof fn lemma_split_on_nonempty(s: Seq<u8>, sep: u8)
    ensures
        split_on(s, sep).len() >= 1,
    decreases s.len(),
{
    if s.len() > 0 {
        lemma_split_on_nonempty(s.drop_last(), sep);
    }
}

/// Splits `s` at every `sep`.
pub fn split_bytes(s: &[u8], sep: u8) -> (r: Vec<Vec<u8>>)
    ensures
        r@.len() == split_on(s@, sep).len(),
        forall|k: int| 0 <= k < r@.len() ==> #[trigger] r@[k]@ == split_on(s@, sep)[k],
{
    let mut pieces: Vec<Vec<u8>> = Vec::new();
    let mut current: Vec<u8> = Vec::new();
    let mut i: usize = 0;
    while i < s.len()
        invariant
            i <= s@.len(),
            pieces@.len() + 1 == split_on(s@.take(i as int), sep).len(),
            forall|k: int|
                0 <= k < pieces@.len() ==> #[trigger] pieces@[k]@ == split_on(
                    s@.take(i as int),
                    sep,
                )[k],
            current@ == split_on(s@.take(i as int), sep).last(),
        decreases s@.len() - i,
    {
        proof {
            assert(s@.take(i + 1).drop_last() == s@.take(i as int));
            lemma_split_on_nonempty(s@.take(i as int), sep);
        }
        if s[i] == sep {
            pieces.push(current);
            current = Vec::new();
        } else {
            current.push(s[i]);
        }
        i = i + 1;
    }
    proof {
        assert(s@.take(i as int) == s@);
    }
    pieces.push(current);
    pieces
}

/// A whitespace character of one byte: tab, line feed, vertical tab, form
/// feed, carriage return and space.
pub open spec fn is_blank1(a: u8) -> bool {
    (9 <= a && a <= 13) || a == 32
}

/// A whitespace character of two bytes in UTF-8: U+0085 and U+00A0.
pub open spec fn is_blank2(a: u8, b: u8) -> bool {
    a == 0xC2 && (b == 0x85 || b == 0xA0)
}

/// A whitespace character of three bytes in UTF-8: U+1680, U+2000 to
/// U+200A, U+2028, U+2029, U+202F, U+205F and U+3000.
pub open spec fn is_blank3(a: u8, b: u8, c: u8) -> bool {
    (a == 0xE1 && b == 0x9A && c == 0x80) || (a == 0xE2 && b == 0x80 && ((0x80 <= c && c
        <= 0x8A) || c == 0xA8 || c == 0xA9 || c == 0xAF)) || (a == 0xE2 && b == 0x81 && c
        == 0x9F) || (a == 0xE3 && b == 0x80 && c == 0x80)
}

/// Length of the whitespace character that `s` begins with, or 0.
pub open spec fn leading_blank(s: Seq<u8>) -> nat {
    if s.len() >= 1 && is_blank1(s[0]) {
        1
    } else if s.len() >= 2 && is_blank2(s[0], s[1]) {
        2
    } else if s.len() >= 3 && is_blank3(s[0], s[1], s[2]) {
        3
    } else {
        0
    }
}

/// Length of the whitespace character that `s` ends with, or 0.
pub open spec fn trailing_blank(s: Seq<u8>) -> nat {
    let n = s.len() as int;
    if n >= 1 && is_blank1(s[n - 1]) {
        1
    } else if n >= 2 && is_blank2(s[n - 2], s[n - 1]) {
        2
    } else if n >= 3 && is_blank3(s[n - 3], s[n - 2], s[n - 1]) {
        3
    } else {
        0
    }
}

/// `s` without the whitespace characters it begins with.
pub open spec fn trim_start(s: Seq<u8>) -> Seq<u8>
    decreases s.len(),
{
    if leading_blank(s) > 0 {
        trim_start(s.subrange(leading_blank(s) as int, s.len() as int))
    } else {
        s
    }
}

/// `s` without the whitespace characters it ends with.
pub open spec fn trim_end(s: Seq<u8>) -> Seq<u8>
    decreases s.len(),
{
    if trailing_blank(s) > 0 {
        trim_end(s.subrange(0, s.len() - trailing_blank(s)))
    } else {
        s
    }
}

/// `s` without its leading and trailing whitespace characters.
pub open spec fn trimmed(s: Seq<u8>) -> Seq<u8> {
    trim_end(trim_start(s))
}

fn blank1(a: u8) -> (r: bool)
    ensures
        r == is_blank1(a),
{
    (9 <= a && a <= 13) || a == 32
}

fn blank2(a: u8, b: u8) -> (r: bool)
    ensures
        r == is_blank2(a, b),
{
    a == 0xC2 && (b == 0x85 || b == 0xA0)
}

fn blank3(a: u8, b: u8, c: u8) -> (r: bool)
    ensures
        r == is_blank3(a, b, c),
{
    (a == 0xE1 && b == 0x9A && c == 0x80) || (a == 0xE2 && b == 0x80 && ((0x80 <= c && c
        <= 0x8A) || c == 0xA8 || c == 0xA9 || c == 0xAF)) || (a == 0xE2 && b == 0x81 && c
        == 0x9F) || (a == 0xE3 && b == 0x80 && c == 0x80)
}

/// Length of the whitespace character at the start of `s[from..to]`, or 0.
fn leading_blank_at(s: &[u8], from: usize, to: usize) -> (r: usize)
    requires
        from <= to <= s@.len(),
    ensures
        r as nat == leading_blank(s@.subrange(from as int, to as int)),
{
    let n = to - from;
    if n >= 1 && blank1(s[from]) {
        1
    } else if n >= 2 && blank2(s[from], s[from + 1]) {
        2
    } else if n >= 3 && blank3(s[from], s[from + 1], s[from + 2]) {
        3
    } else {
        0
    }
}

/// Length of the whitespace character at the end of `s[from..to]`, or 0.
fn trailing_blank_at(s: &[u8], from: usize, to: usize) -> (r: usize)
    requires
        from <= to <= s@.len(),
    ensures
        r as nat == trailing_blank(s@.subrange(from as int, to as int)),
{
    let n = to - from;
    if n >= 1 && blank1(s[to - 1]) {
        1
    } else if n >= 2 && blank2(s[to - 2], s[to - 1]) {
        2
    } else if n >= 3 && blank3(s[to - 3], s[to - 2], s[to - 1]) {
        3
    } else {
        0
    }
}

/// `cell` without its leading and trailing whitespace characters.
pub fn trim_blanks(cell: &[u8]) -> (r: Vec<u8>)
    ensures
        r@ == trimmed(cell@),
{
    let n = cell.len();
    let mut start: usize = 0;
    proof {
        assert(cell@.subrange(0, n as int) == cell@);
    }
    let mut k: usize = leading_blank_at(cell, start, n);
    while k > 0
        invariant
            start <= n,
            n == cell@.len(),
            k as nat == leading_blank(cell@.subrange(start as int, n as int)),
            trim_start(cell@) == trim_start(cell@.subrange(start as int, n as int)),
        decreases n - start,
    {
        proof {
            let rest = cell@.subrange(start as int, n as int);
            assert(rest.subrange(k as int, rest.len() as int) == cell@.subrange(
                start + k,
                n as int,
            ));
        }
        start = start + k;
        k = leading_blank_at(cell, start, n);
    }
    let mut end: usize = n;
    k = trailing_blank_at(cell, start, end);
    while k > 0
        invariant
            start <= end <= n,
            n == cell@.len(),
            k as nat == trailing_blank(cell@.subrange(start as int, end as int)),
            trimmed(cell@) == trim_end(cell@.subrange(start as int, end as int)),
        decreases end - start,
    {
        proof {
            let rest = cell@.subrange(start as int, end as int);
            assert(rest.subrange(0, rest.len() - k) == cell@.subrange(
                start as int,
                end - k,
            ));
        }
        end = end - k;
        k = trailing_blank_at(cell, start, end);
    }
    let mut r: Vec<u8> = Vec::new();
    k = start;
    while k < end
        invariant
            start <= k <= end <= n,
            n == cell@.len(),
            r@ == cell@.subrange(start as int, k as int),
        decreases end - k,
    {
        r.push(cell[k]);
        proof {
            assert(r@ == cell@.subrange(start as int, k + 1));
        }
        k = k + 1;
    }
    r
}

pub open spec fn is_digit(b: u8) -> bool {
    48 <= b && b <= 57
}

pub open spec fn all_digits(d: Seq<u8>) -> bool {
    forall|k: int| 0 <= k < d.len() ==> is_digit(#[trigger] d[k])
}

/// The number written by the decimal digits `d`, most significant first.
pub open spec fn decimal_value(d: Seq<u8>) -> nat
    decreases d.len(),
{
    if d.len() == 0 {
        0
    } else {
        decimal_value(d.drop_last()) * 10 + (d.last() - 48) as nat
    }
}

/// The number written by `d` when it is one or more digits and fits an `i32`.
pub open spec fn unsigned_number(d: Seq<u8>) -> Option<nat> {
    if d.len() > 0 && all_digits(d) && decimal_value(d) <= i32::MAX {
        Some(decimal_value(d))
    } else {
        None
    }
}

/// The non-negative `i32` written in `t`: digits with an optional `+` in
/// front; with a `-` in front, only digits that write zero give a number.
pub open spec fn tile_number(t: Seq<u8>) -> Option<nat> {
    if t.len() > 0 && t[0] == 43 {
        unsigned_number(t.drop_first())
    } else if t.len() > 0 && t[0] == 45 {
        if unsigned_number(t.drop_first()) == Some(0nat) {
            Some(0nat)
        } else {
            None
        }
    } else {
        unsigned_number(t)
    }
}

/// The sprite number of a cell, or `None` for an empty cell.
pub open spec fn cell_tile(cell: Seq<u8>) -> Option<nat> {
    tile_number(trimmed(cell))
}

proof fn lemma_decimal_value_grows(d: Seq<u8>, k: int)
    requires
        0 <= k <= d.len(),
    ensures
        decimal_value(d.take(k)) <= decimal_value(d),
    decreases d.len(),
{
    if k < d.len() {
        assert(d.drop_last().take(k) == d.take(k));
        lemma_decimal_value_grows(d.drop_last(), k);
    } else {
        assert(d.take(k) == d);
    }
}

/// The number written by `t` from index `from` on, when that part is one or
/// more digits and fits an `i32`.
fn unsigned_from(t: &[u8], from: usize) -> (r: Option<u32>)
    requires
        from <= t@.len(),
    ensures
        match r {
            Some(v) => unsigned_number(t@.subrange(from as int, t@.len() as int)) == Some(v as nat),
            None => unsigned_number(t@.subrange(from as int, t@.len() as int)) is None,
        },
{
    let ghost d = t@.subrange(from as int, t@.len() as int);
    if from == t.len() {
        return None;
    }
    let mut acc: u64 = 0;
    let mut k: usize = from;
    while k < t.len()
        invariant
            from <= k <= t@.len(),
            d == t@.subrange(from as int, t@.len() as int),
            all_digits(d.take(k - from)),
            acc as nat == decimal_value(d.take(k - from)),
            acc <= i32::MAX,
        decreases t@.len() - k,
    {
        let b = t[k];
        proof {
            assert(d.take(k - from + 1).drop_last() == d.take(k - from));
            assert(d[k - from] == b);
        }
        if b < 48 || b > 57 {
            proof {
                assert(!is_digit(d[k - from]));
            }
            return None;
        }
        acc = acc * 10 + (b - 48) as u64;
        if acc > 2147483647 {
            proof {
                lemma_decimal_value_grows(d, k - from + 1);
            }
            return None;
        }
        k = k + 1;
        proof {
            assert forall|j: int| 0 <= j < d.take(k - from).len() implies is_digit(
                #[trigger] d.take(k - from)[j],
            ) by {
                if j < k - from - 1 {
                    assert(d.take(k - from)[j] == d.take(k - from - 1)[j]);
                }
            }
        }
    }
    proof {
        assert(d.take(k - from) == d);
    }
    Some(acc as u32)
}

/// The sprite number written in a cell, surrounding whitespace aside, or
/// `None` when the cell holds no non-negative `i32`.
pub fn parse_tile_id(cell: &[u8]) -> (r: Option<u32>)
    ensures
        match r {
            Some(v) => cell_tile(cell@) == Some(v as nat),
            None => cell_tile(cell@) is None,
        },
{
    let t = trim_blanks(cell);
    let ghost ts = t@;
    if t.len() > 0 && t[0] == 43 {
        proof {
            assert(ts.drop_first() == ts.subrange(1, ts.len() as int));
        }
        unsigned_from(t.as_slice(), 1)
    } else if t.len() > 0 && t[0] == 45 {
        proof {
            assert(ts.drop_first() == ts.subrange(1, ts.len() as int));
        }
        match unsigned_from(t.as_slice(), 1) {
            Some(v) => if v == 0 {
                Some(0)
            } else {
                None
            },
            None => None,
        }
    } else {
        proof {
            assert(ts == ts.subrange(0, ts.len() as int));
        }
        unsigned_from(t.as_slice(), 0)
    }
}

/// A sprite to draw at column `x` and row `y` of a layer, rows counted
/// from the bottom.
#[derive(Clone, Copy, Debug, PartialEq, Eq, Structural)]
pub struct TilePlacement {
    pub x: usize,
    pub y: usize,
    pub sprite_number: usize,
}

impl TilePlacement {
    pub open spec fn view(self) -> (nat, nat, nat) {
        (self.x as nat, self.y as nat, self.sprite_number as nat)
    }
}

/// The tiles of one row, placed at height `y`: one for each cell that holds
/// a sprite number, at the cell's index, in order.
pub open spec fn row_tiles(cells: Seq<Seq<u8>>, y: nat) -> Seq<(nat, nat, nat)>
    decreases cells.len(),
{
    if cells.len() == 0 {
        Seq::empty()
    } else {
        let earlier = row_tiles(cells.drop_last(), y);
        match cell_tile(cells.last()) {
            Some(n) => earlier.push(((cells.len() - 1) as nat, y, n)),
            None => earlier,
        }
    }
}

/// The tiles of the first rows of a layer of `line_nb` rows, row by row; the
/// first row is the top one, at height `line_nb - 1`.
pub open spec fn rows_tiles(rows: Seq<Seq<u8>>, line_nb: nat) -> Seq<(nat, nat, nat)>
    decreases rows.len(),
{
    if rows.len() == 0 {
        Seq::empty()
    } else {
        rows_tiles(rows.drop_last(), line_nb) + row_tiles(
            split_on(rows.last(), CELL_SEPARATOR),
            (line_nb - rows.len()) as nat,
        )
    }
}

/// The tiles of a whole layer.
pub open spec fn layer_spec(layer: Seq<u8>) -> Seq<(nat, nat, nat)> {
    rows_tiles(split_on(layer, ROW_SEPARATOR), split_on(layer, ROW_SEPARATOR).len())
}

/// The tiles of one row, placed at height `y`.
fn row_placements(cells: &Vec<Vec<u8>>, y: usize, out: &mut Vec<TilePlacement>)
    ensures
        final(out)@.map_values(|t: TilePlacement| t.view()) == old(out)@.map_values(
            |t: TilePlacement| t.view(),
        ) + row_tiles(cells@.map_values(|c: Vec<u8>| c@), y as nat),
{
    let ghost start = old(out)@.map_values(|t: TilePlacement| t.view());
    let ghost all = cells@.map_values(|c: Vec<u8>| c@);
    let mut x: usize = 0;
    while x < cells.len()
        invariant
            x <= cells@.len(),
            all == cells@.map_values(|c: Vec<u8>| c@),
            out@.map_values(|t: TilePlacement| t.view()) == start + row_tiles(
                all.take(x as int),
                y as nat,
            ),
        decreases cells@.len() - x,
    {
        proof {
            assert(all.take(x + 1).drop_last() == all.take(x as int));
            assert(all.take(x + 1).last() == cells@[x as int]@);
        }
        let ghost before = out@.map_values(|t: TilePlacement| t.view());
        if let Some(n) = parse_tile_id(cells[x].as_slice()) {
            out.push(TilePlacement { x, y, sprite_number: n as usize });
            proof {
                let earlier = row_tiles(all.take(x as int), y as nat);
                let tile = (x as nat, y as nat, n as nat);
                assert(out@.map_values(|t: TilePlacement| t.view()) =~= before.push(tile));
                assert((start + earlier).push(tile) =~= start + earlier.push(tile));
            }
        }
        x = x + 1;
    }
    proof {
        assert(all.take(x as int) == all);
    }
}

/// Where each sprite of a layer goes: rows are separated by `;` and the
/// first row is the top one; cells are separated by `,`; a cell is the
/// sprite number, surrounding whitespace aside, and one that holds no
/// non-negative number is left empty.
pub fn layer_tiles(sprites: &str) -> (r: Vec<TilePlacement>)
    ensures
        r@.map_values(|t: TilePlacement| t.view()) == layer_spec(sprites.spec_bytes()),
{
    let bytes = sprites.as_bytes();
    let rows = split_bytes(bytes, ROW_SEPARATOR);
    let ghost all = split_on(bytes@, ROW_SEPARATOR);
    let line_nb = rows.len();
    let mut r: Vec<TilePlacement> = Vec::new();
    let mut y: usize = 0;
    proof {
        assert(r@.map_values(|t: TilePlacement| t.view()) == Seq::<(nat, nat, nat)>::empty());
        assert(all.take(0).len() == 0);
    }
    while y < line_nb
        invariant
            y <= line_nb,
            line_nb == rows@.len(),
            all == split_on(bytes@, ROW_SEPARATOR),
            all.len() == rows@.len(),
            forall|k: int| 0 <= k < rows@.len() ==> #[trigger] rows@[k]@ == all[k],
            r@.map_values(|t: TilePlacement| t.view()) == rows_tiles(
                all.take(y as int),
                line_nb as nat,
            ),
        decreases line_nb - y,
    {
        let cells = split_bytes(rows[y].as_slice(), CELL_SEPARATOR);
        proof {
            assert(all.take(y + 1).drop_last() == all.take(y as int));
            assert(all.take(y + 1).last() == all[y as int]);
            assert(cells@.map_values(|c: Vec<u8>| c@) == split_on(all[y as int], CELL_SEPARATOR));
        }
        row_placements(&cells, line_nb - y - 1, &mut r);
        y = y + 1;
    }
    proof {
        assert(all.take(y as int) == all);
    }
    r
}

} // verus!
