use crate::style::{ansi_paint, ansi_wrapped, Color, Styled, TextStyle};
use vstd::prelude::*;

verus! {

/// One table row: display text keyed by column key. Extra keys not bound to
/// any column may be present; they carry raw numeric values for sorting.
/// Keys set earlier shadow later ones, and the builders never repeat a key.
#[derive(Debug)]
pub struct Row {
    pub entries: Vec<(String, String)>,
}

/// The value the first entry with the given key holds, if any.
pub open spec fn entries_get(entries: Seq<(String, String)>, key: Seq<char>) -> Option<Seq<char>>
    decreases entries.len(),
{
    if entries.len() == 0 {
        None
    } else if entries[0].0@ == key {
        Some(entries[0].1@)
    } else {
        entries_get(entries.drop_first(), key)
    }
}

/// A match-free prefix does not change what a lookup finds.
proof fn lemma_entries_get_skip(entries: Seq<(String, String)>, key: Seq<char>, i: int)
    requires
        0 <= i <= entries.len(),
        forall|j: int| 0 <= j < i ==> entries[j].0@ != key,
    ensures
        entries_get(entries, key) == entries_get(entries.skip(i), key),
    decreases i,
{
    if i > 0 {
        lemma_entries_get_skip(entries.drop_first(), key, i - 1);
        assert(entries.drop_first().skip(i - 1) =~= entries.skip(i));
    } else {
        assert(entries.skip(0) =~= entries);
    }
}

impl Row {
    /// What this row displays under a column key.
    pub open spec fn value_of(self, key: Seq<char>) -> Option<Seq<char>> {
        entries_get(self.entries@, key)
    }

    pub fn new() -> (r: Row)
        ensures
            r.entries@.len() == 0,
            forall|k: Seq<char>| r.value_of(k) is None,
    {
        Row { entries: Vec::new() }
    }

    /// Binds a key to a value; an earlier binding of the same key wins, so
    /// the builders call this once per key.
    pub fn set(&mut self, key: String, value: String)
        ensures
            final(self).value_of(key@) == Some(value@),
            forall|k: Seq<char>|
                k != key@ ==> final(self).value_of(k) == old(self).value_of(k),
            final(self).entries@ == seq![(key, value)] + old(self).entries@,
    {
        let ghost pre = self.entries@;
        self.entries.insert(0, (key, value));
        proof {
            assert(self.entries@.drop_first() =~= pre);
        }
    }

    /// Looks a key up.
    pub fn get<'a>(&'a self, key: &String) -> (r: Option<&'a String>)
        ensures
            match r {
                Some(v) => self.value_of(key@) == Some(v@),
                None => self.value_of(key@) is None,
            },
    {
        let n = self.entries.len();
        let mut i: usize = 0;
        while i < n
            invariant
                i <= n,
                n == self.entries@.len(),
                forall|j: int| 0 <= j < i ==> self.entries@[j].0@ != key@,
            decreases n - i,
        {
            let e = &self.entries[i];
            if e.0 == *key {
                proof {
                    lemma_entries_get_skip(self.entries@, key@, i as int);
                    assert(self.entries@.skip(i as int)[0] == self.entries@[i as int]);
                }
                return Some(&e.1);
            }
            i = i + 1;
        }
        proof {
            lemma_entries_get_skip(self.entries@, key@, n as int);
            assert(self.entries@.skip(n as int).len() == 0);
        }
        None
    }
}

/// The render hooks this system knows. Only one behavior is specified: the
/// totals-row emphasis, which bolds the last row and gives it the column's
/// color when the table's context says a totals row is present.
#[derive(Debug, Copy, Clone, PartialEq, Eq, Structural)]
pub enum RenderHook {
    TotalsEmphasis,
}

/// The attributes of a cell before the owning column's own color and style
/// are folded in.
pub struct StyledView {
    pub text: Seq<char>,
    pub color: Option<Color>,
    pub style: TextStyle,
}

impl View for Styled {
    type V = StyledView;

    open spec fn view(&self) -> StyledView {
        StyledView { text: self.text@, color: self.color, style: self.style }
    }
}

/// The cross-row facts a hook may read: which row is being rendered, how
/// many rows there are, and whether a totals row is enabled.
pub struct CtxView {
    pub row_index: int,
    pub row_count: int,
    pub totals: bool,
}

/// What the totals-emphasis hook turns a cell value into: on the last row
/// of a table with totals enabled, a non-empty cell is bolded and, if it
/// carries no color of its own, given the column's color; every other cell
/// passes through unchanged.
pub open spec fn apply_hook_view(
    hook: RenderHook,
    v: StyledView,
    col_color: Option<Color>,
    ctx: CtxView,
) -> StyledView {
    match hook {
        RenderHook::TotalsEmphasis => {
            if ctx.totals && ctx.row_index == ctx.row_count - 1 && v.text.len() > 0 {
                StyledView {
                    text: v.text,
                    color: if v.color is Some {
                        v.color
                    } else {
                        col_color
                    },
                    style: TextStyle { bold: true, underline: v.style.underline },
                }
            } else {
                v
            }
        },
    }
}

/// One table column: identity, header text, computed width, visibility,
/// alignment and display attributes, and an optional render hook.
#[derive(Debug)]
pub struct Column {
    pub key: String,
    pub title: String,
    pub width: usize,
    pub hidden: bool,
    pub right_align: bool,
    pub color: Option<Color>,
    pub style: TextStyle,
    pub render: Option<RenderHook>,
}

impl Default for Column {
    fn default() -> (r: Column)
        ensures
            r.key@ == Seq::<char>::empty(),
            r.title@ == Seq::<char>::empty(),
            r.width == 0,
            !r.hidden,
            !r.right_align,
            r.color is None,
            r.style == TextStyle::spec_plain(),
            r.render is None,
    {
        Column {
            key: String::new(),
            title: String::new(),
            width: 0,
            hidden: false,
            right_align: false,
            color: None,
            style: TextStyle::plain(),
            render: None,
        }
    }
}

/// A run of spaces.
pub open spec fn spaces(n: nat) -> Seq<char>
    decreases n,
{
    if n == 0 {
        Seq::empty()
    } else {
        spaces((n - 1) as nat).push(' ')
    }
}

fn make_spaces(n: usize) -> (r: String)
    ensures
        r@ == spaces(n as nat),
{
    let mut s = String::new();
    let mut i: usize = 0;
    while i < n
        invariant
            i <= n,
            s@ == spaces(i as nat),
        decreases n - i,
    {
        s.append(" ");
        proof {
            reveal_strlit(" ");
            assert(s@ =~= spaces((i + 1) as nat));
        }
        i = i + 1;
    }
    s
}

/// A cell padded to the column width: the styled text plus spaces, spaces
/// first when the column is right-aligned. Padding counts the visible
/// characters only, never the escape sequences, and text wider than the
/// column is left untruncated.
pub open spec fn pad_aligned(
    text: Seq<char>,
    width: nat,
    right: bool,
    color: Option<Color>,
    st: TextStyle,
    colorize: bool,
) -> Seq<char> {
    let painted = if colorize {
        ansi_wrapped(text, color, st)
    } else {
        text
    };
    if text.len() >= width {
        painted
    } else if right {
        spaces((width - text.len()) as nat) + painted
    } else {
        painted + spaces((width - text.len()) as nat)
    }
}

/// What a column renders a cell value to: a hidden column yields empty
/// text; otherwise the hook (when present, and given a context) may rewrite
/// the value, the column's color applies where the value carries none, the
/// column's style flags are merged in, and the result is padded to the
/// column's width.
pub open spec fn spec_format(col: Column, v: StyledView, ctx: Option<CtxView>, colorize: bool) -> Seq<char> {
    if col.hidden {
        Seq::empty()
    } else {
        let v1 = match (col.render, ctx) {
            (Some(h), Some(c)) => apply_hook_view(h, v, col.color, c),
            _ => v,
        };
        let color = if v1.color is Some {
            v1.color
        } else {
            col.color
        };
        pad_aligned(
            v1.text,
            col.width as nat,
            col.right_align,
            color,
            v1.style.spec_merge(col.style),
            colorize,
        )
    }
}

/// The rendering context handed to a hook: the cell's pre-render value,
/// the column and its position, the row and its position, the full column
/// and row lists, and the table's context map.
pub struct RenderArgs<'a> {
    pub value: Styled,
    pub key: &'a String,
    pub column_index: usize,
    pub column: &'a Column,
    pub columns: &'a Vec<Column>,
    pub record_index: usize,
    pub record: &'a Row,
    pub data: &'a Vec<Row>,
    pub custom: &'a Row,
}

/// The context key and value that mark a totals row as enabled.
pub open spec fn totals_enabled(custom: Row) -> bool {
    entries_get(custom.entries@, seq!['t', 'o', 't', 'a', 'l']) == Some(
        seq!['t', 'r', 'u', 'e'],
    )
}

/// Whether the table's context map marks totals as enabled.
pub fn totals_flag(custom: &Row) -> (r: bool)
    ensures
        r == totals_enabled(*custom),
{
    proof {
        reveal_strlit("total");
        reveal_strlit("true");
        assert("total"@ =~= seq!['t', 'o', 't', 'a', 'l']);
        assert("true"@ =~= seq!['t', 'r', 'u', 'e']);
    }
    let key = String::from_str("total");
    match custom.get(&key) {
        Some(v) => {
            let yes = String::from_str("true");
            *v == yes
        },
        None => false,
    }
}

/// The cross-row facts spec_format reads out of an optional context.
pub open spec fn ctx_of<'a>(args: Option<RenderArgs<'a>>) -> Option<CtxView> {
    match args {
        Some(a) => Some(
            CtxView {
                row_index: a.record_index as int,
                row_count: a.data@.len() as int,
                totals: totals_enabled(*a.custom),
            },
        ),
        None => None,
    }
}

/// Runs a hook on a cell value.
fn apply_hook(
    hook: RenderHook,
    value: Styled,
    col_color: Option<Color>,
    record_index: usize,
    row_count: usize,
    totals: bool,
) -> (r: Styled)
    ensures
        r@ == apply_hook_view(
            hook,
            value@,
            col_color,
            CtxView { row_index: record_index as int, row_count: row_count as int, totals },
        ),
{
    match hook {
        RenderHook::TotalsEmphasis => {
            if totals && row_count > 0 && record_index == row_count - 1
                && !value.text.as_str().is_empty() {
                let color = if value.color.is_some() {
                    value.color
                } else {
                    col_color
                };
                Styled {
                    text: value.text,
                    color,
                    style: TextStyle { bold: true, underline: value.style.underline },
                }
            } else {
                value
            }
        },
    }
}

impl Column {
    /// Renders one cell value under this column's rules; the optional
    /// context must carry the same pre-render value.
    pub fn format(&self, value: Styled, args: Option<RenderArgs>, colorize: bool) -> (r: String)
        requires
            (match args {
                Some(a) => a.value@ == value@,
                None => true,
            }),
        ensures
            r@ == spec_format(*self, value@, ctx_of(args), colorize),
    {
        if self.hidden {
            return String::new();
        }
        let v1: Styled = match (self.render, args) {
            (Some(h), Some(a)) => apply_hook(
                h,
                value,
                self.color,
                a.record_index,
                a.data.len(),
                totals_flag(a.custom),
            ),
            (_, _) => value,
        };
        let color = if v1.color.is_some() {
            v1.color
        } else {
            self.color
        };
        let st = v1.style.merge(self.style);
        let painted = if colorize {
            ansi_paint(v1.text.as_str(), color, st)
        } else {
            v1.text.as_str().to_owned()
        };
        let tlen = v1.text.as_str().unicode_len();
        if tlen >= self.width {
            painted
        } else if self.right_align {
            let mut out = make_spaces(self.width - tlen);
            out.append(painted.as_str());
            out
        } else {
            let mut out = painted;
            out.append(make_spaces(self.width - tlen).as_str());
            out
        }
    }

    /// Renders this column's header cell: the title in bold and underline,
    /// in the column's color, under the same hidden and alignment rules as
    /// a body cell.
    pub fn format_header(&self, colorize: bool) -> (r: String)
        ensures
            r@ == spec_header_cell(*self, colorize),
    {
        let v = Styled {
            text: self.title.clone(),
            color: None,
            style: TextStyle { bold: true, underline: true },
        };
        self.format(v, None, colorize)
    }
}

/// The header cell of a column.
pub open spec fn spec_header_cell(col: Column, colorize: bool) -> Seq<char> {
    spec_format(
        col,
        StyledView {
            text: col.title@,
            color: None,
            style: TextStyle { bold: true, underline: true },
        },
        None,
        colorize,
    )
}

/// The larger of two naturals.
pub open spec fn nat_max(a: nat, b: nat) -> nat {
    if a >= b {
        a
    } else {
        b
    }
}

/// The length a lookup result contributes to a column width: absent keys
/// contribute nothing.
pub open spec fn val_len(o: Option<Seq<char>>) -> nat {
    match o {
        Some(v) => v.len(),
        None => 0,
    }
}

/// The widest value the rows hold under a key.
pub open spec fn rows_key_max(rows: Seq<Row>, key: Seq<char>) -> nat
    decreases rows.len(),
{
    if rows.len() == 0 {
        0
    } else {
        nat_max(rows_key_max(rows.drop_last(), key), val_len(rows.last().value_of(key)))
    }
}

/// What a column's width becomes after a full pass over the data: the
/// widest of its previous width, its title, and every row value under its
/// key. Widths only ever grow.
pub open spec fn computed_width(c: Column, rows: Seq<Row>) -> nat {
    nat_max(c.width as nat, nat_max(c.title@.len(), rows_key_max(rows, c.key@)))
}

/// An ordered set of columns, an ordered set of rows, a context map the
/// render hooks can read, and the derived key-to-index lookup.
#[derive(Debug)]
pub struct Table {
    pub columns: Vec<Column>,
    pub columns_cache: Vec<(String, usize)>,
    pub data: Vec<Row>,
    pub custom: Row,
}

impl Table {
    /// Column keys are unique, and the cache maps each key to its index.
    pub open spec fn wf(self) -> bool {
        &&& forall|i: int, j: int|
            0 <= i < j < self.columns@.len() ==> self.columns@[i].key@ != self.columns@[j].key@
        &&& self.columns_cache@.len() == self.columns@.len()
        &&& forall|i: int|
            0 <= i < self.columns@.len() ==> (#[trigger] self.columns_cache@[i]).0@
                == self.columns@[i].key@ && self.columns_cache@[i].1 == i
    }

    /// Builds a table and runs the width pass.
    pub fn new(columns: Vec<Column>, data: Vec<Row>, custom: Row) -> (r: Table)
        requires
            forall|i: int, j: int|
                0 <= i < j < columns@.len() ==> columns@[i].key@ != columns@[j].key@,
        ensures
            r.wf(),
            r.data == data,
            r.custom == custom,
            r.columns@.len() == columns@.len(),
            forall|i: int|
                0 <= i < columns@.len() ==> column_resized(
                    columns@[i],
                    #[trigger] r.columns@[i],
                    data@,
                ),
    {
        let mut table = Table { columns, columns_cache: Vec::new(), data, custom };
        table.refresh_cache();
        table
    }

    /// One full width pass and a cache rebuild; run at construction and
    /// whenever the rows are replaced. A second run grows nothing further.
    pub fn refresh_cache(&mut self)
        requires
            forall|i: int, j: int|
                0 <= i < j < old(self).columns@.len() ==> old(self).columns@[i].key@ != old(
                    self,
                ).columns@[j].key@,
        ensures
            final(self).wf(),
            final(self).data == old(self).data,
            final(self).custom == old(self).custom,
            final(self).columns@.len() == old(self).columns@.len(),
            forall|i: int|
                0 <= i < old(self).columns@.len() ==> column_resized(
                    old(self).columns@[i],
                    #[trigger] final(self).columns@[i],
                    old(self).data@,
                ),
    {
        let n = self.columns.len();
        let mut cache: Vec<(String, usize)> = Vec::new();
        let mut i: usize = 0;
        while i < n
            invariant
                i <= n,
                n == self.columns@.len(),
                self.data == old(self).data,
                self.custom == old(self).custom,
                self.columns@.len() == old(self).columns@.len(),
                forall|k: int, j: int|
                    0 <= k < j < old(self).columns@.len() ==> old(self).columns@[k].key@ != old(
                        self,
                    ).columns@[j].key@,
                forall|j: int|
                    i <= j < n ==> #[trigger] self.columns@[j] == old(self).columns@[j],
                forall|j: int|
                    0 <= j < i ==> column_resized(
                        old(self).columns@[j],
                        #[trigger] self.columns@[j],
                        old(self).data@,
                    ),
                cache@.len() == i,
                forall|j: int|
                    0 <= j < i ==> (#[trigger] cache@[j]).0@ == old(self).columns@[j].key@
                        && cache@[j].1 == j,
            decreases n - i,
        {
            let w = self.column_width_pass(i);
            let ghost pre = self.columns@;
            let mut c = self.columns.remove(i);
            if c.width < w {
                c.width = w;
            }
            let k = c.key.clone();
            self.columns.insert(i, c);
            cache.push((k, i));
            proof {
                assert(self.columns@ =~= pre.update(i as int, self.columns@[i as int]));
            }
            i = i + 1;
        }
        self.columns_cache = cache;
    }

    /// The widest of a column's current width, its title, and the rows'
    /// values under its key.
    fn column_width_pass(&self, i: usize) -> (w: usize)
        requires
            i < self.columns@.len(),
        ensures
            w as nat == computed_width(self.columns@[i as int], self.data@),
    {
        let c = &self.columns[i];
        let mut w: usize = c.width;
        let tl = c.title.as_str().unicode_len();
        if w < tl {
            w = tl;
        }
        let m = self.data.len();
        let mut r: usize = 0;
        while r < m
            invariant
                r <= m,
                m == self.data@.len(),
                i < self.columns@.len(),
                c == &self.columns@[i as int],
                w as nat == nat_max(
                    c.width as nat,
                    nat_max(c.title@.len(), rows_key_max(self.data@.take(r as int), c.key@)),
                ),
            decreases m - r,
        {
            match self.data[r].get(&c.key) {
                Some(v) => {
                    let l = v.as_str().unicode_len();
                    if w < l {
                        w = l;
                    }
                },
                None => {},
            }
            proof {
                assert(self.data@.take(r + 1).drop_last() =~= self.data@.take(r as int));
                assert(self.data@.take(r + 1).last() == self.data@[r as int]);
            }
            r = r + 1;
        }
        proof {
            assert(self.data@.take(m as int) =~= self.data@);
        }
        w
    }

    /// Looks a column key up in the derived cache.
    pub fn column_index(&self, key: &String) -> (r: Option<usize>)
        requires
            self.wf(),
        ensures
            match r {
                Some(i) => i < self.columns@.len() && self.columns@[i as int].key@ == key@,
                None => forall|i: int|
                    0 <= i < self.columns@.len() ==> (#[trigger] self.columns@[i]).key@ != key@,
            },
    {
        let n = self.columns_cache.len();
        let mut i: usize = 0;
        while i < n
            invariant
                i <= n,
                self.wf(),
                n == self.columns_cache@.len(),
                forall|j: int| 0 <= j < i ==> (#[trigger] self.columns@[j]).key@ != key@,
            decreases n - i,
        {
            let e = &self.columns_cache[i];
            if e.0 == *key {
                return Some(e.1);
            }
            i = i + 1;
        }
        None
    }
}

/// The second column is the first with its width brought up to the full
/// pass over the rows; everything else is unchanged.
pub open spec fn column_resized(before: Column, after: Column, rows: Seq<Row>) -> bool {
    &&& after.width as nat == computed_width(before, rows)
    &&& after.key == before.key
    &&& after.title == before.title
    &&& after.hidden == before.hidden
    &&& after.right_align == before.right_align
    &&& after.color == before.color
    &&& after.style == before.style
    &&& after.render == before.render
}

/// The pre-render text of one cell: what the row holds under the column's
/// key, or empty text where the row has no such key.
pub open spec fn cell_input(row: Row, key: Seq<char>) -> Seq<char> {
    match row.value_of(key) {
        Some(v) => v,
        None => Seq::empty(),
    }
}

/// One fully rendered body cell.
pub open spec fn spec_row_cell(
    col: Column,
    row: Row,
    row_index: int,
    row_count: int,
    totals: bool,
    colorize: bool,
) -> Seq<char> {
    spec_format(
        col,
        StyledView { text: cell_input(row, col.key@), color: None, style: TextStyle::spec_plain() },
        Some(CtxView { row_index, row_count, totals }),
        colorize,
    )
}

/// The separator between adjacent cells.
pub open spec fn sep_seq() -> Seq<char> {
    seq![' ', ' ']
}

/// The first `n` header cells joined by the separator.
pub open spec fn header_cells(cols: Seq<Column>, n: int, colorize: bool) -> Seq<char>
    decreases n,
{
    if n <= 0 {
        Seq::empty()
    } else if n == 1 {
        spec_header_cell(cols[0], colorize)
    } else {
        header_cells(cols, n - 1, colorize) + sep_seq() + spec_header_cell(cols[n - 1], colorize)
    }
}

/// The first `n` cells of one row joined by the separator.
pub open spec fn row_cells(
    cols: Seq<Column>,
    n: int,
    row: Row,
    row_index: int,
    row_count: int,
    totals: bool,
    colorize: bool,
) -> Seq<char>
    decreases n,
{
    if n <= 0 {
        Seq::empty()
    } else if n == 1 {
        spec_row_cell(cols[0], row, row_index, row_count, totals, colorize)
    } else {
        row_cells(cols, n - 1, row, row_index, row_count, totals, colorize) + sep_seq()
            + spec_row_cell(cols[n - 1], row, row_index, row_count, totals, colorize)
    }
}

/// The first `m` body lines, each closed by a line break.
pub open spec fn body_lines(
    cols: Seq<Column>,
    rows: Seq<Row>,
    m: int,
    totals: bool,
    colorize: bool,
) -> Seq<char>
    decreases m,
{
    if m <= 0 {
        Seq::empty()
    } else {
        body_lines(cols, rows, m - 1, totals, colorize) + row_cells(
            cols,
            cols.len() as int,
            rows[m - 1],
            m - 1,
            rows.len() as int,
            totals,
            colorize,
        ) + seq!['\n']
    }
}

/// The whole rendered table: the header line, then one line per row, every
/// line closed by a line break.
pub open spec fn spec_render(t: Table, colorize: bool) -> Seq<char> {
    header_cells(t.columns@, t.columns@.len() as int, colorize) + seq!['\n'] + body_lines(
        t.columns@,
        t.data@,
        t.data@.len() as int,
        totals_enabled(t.custom),
        colorize,
    )
}

impl Table {
    /// Renders the table to one text block. Rendering reads the table and
    /// nothing else, so rendering twice gives identical text.
    pub fn render(&self, colorize: bool) -> (r: String)
        requires
            self.columns@.len() > 0,
        ensures
            r@ == spec_render(*self, colorize),
    {
        proof {
            reveal_strlit("  ");
            reveal_strlit("\n");
            assert("  "@ =~= sep_seq());
        }
        let ghost cols = self.columns@;
        let n = self.columns.len();
        let mut out = String::new();
        let mut j: usize = 0;
        while j < n
            invariant
                j <= n,
                n == self.columns@.len(),
                out@ == header_cells(self.columns@, j as int, colorize),
            decreases n - j,
        {
            if j > 0 {
                out.append("  ");
            }
            let cell = self.columns[j].format_header(colorize);
            out.append(cell.as_str());
            proof {
                reveal_strlit("  ");
                assert("  "@ =~= sep_seq());
                assert(out@ =~= header_cells(self.columns@, j + 1, colorize));
            }
            j = j + 1;
        }
        out.append("\n");
        let ghost header = out@;
        proof {
            reveal_strlit("\n");
            assert("\n"@ =~= seq!['\n']);
            assert(header =~= header_cells(cols, n as int, colorize) + seq!['\n']);
        }
        let totals = totals_flag(&self.custom);
        let m = self.data.len();
        let mut r: usize = 0;
        while r < m
            invariant
                r <= m,
                n == self.columns@.len(),
                m == self.data@.len(),
                n > 0,
                totals == totals_enabled(self.custom),
                header == header_cells(self.columns@, n as int, colorize) + seq!['\n'],
                out@ == header + body_lines(
                    self.columns@,
                    self.data@,
                    r as int,
                    totals,
                    colorize,
                ),
            decreases m - r,
        {
            let mut j2: usize = 0;
            while j2 < n
                invariant
                    j2 <= n,
                    r < m,
                    n == self.columns@.len(),
                    m == self.data@.len(),
                    totals == totals_enabled(self.custom),
                    out@ == header + body_lines(
                        self.columns@,
                        self.data@,
                        r as int,
                        totals,
                        colorize,
                    ) + row_cells(
                        self.columns@,
                        j2 as int,
                        self.data@[r as int],
                        r as int,
                        m as int,
                        totals,
                        colorize,
                    ),
                decreases n - j2,
            {
                if j2 > 0 {
                    out.append("  ");
                }
                let row = &self.data[r];
                let raw: String = match row.get(&self.columns[j2].key) {
                    Some(v) => v.clone(),
                    None => String::new(),
                };
                let raw2 = raw.clone();
                let value = Styled::plain(raw);
                let args = RenderArgs {
                    value: Styled::plain(raw2),
                    key: &self.columns[j2].key,
                    column_index: j2,
                    column: &self.columns[j2],
                    columns: &self.columns,
                    record_index: r,
                    record: row,
                    data: &self.data,
                    custom: &self.custom,
                };
                let cell = self.columns[j2].format(value, Some(args), colorize);
                out.append(cell.as_str());
                proof {
                    reveal_strlit("  ");
                    assert("  "@ =~= sep_seq());
                    assert(cell@ == spec_row_cell(
                        self.columns@[j2 as int],
                        self.data@[r as int],
                        r as int,
                        m as int,
                        totals,
                        colorize,
                    ));
                    assert(out@ =~= header + body_lines(
                        self.columns@,
                        self.data@,
                        r as int,
                        totals,
                        colorize,
                    ) + row_cells(
                        self.columns@,
                        j2 + 1,
                        self.data@[r as int],
                        r as int,
                        m as int,
                        totals,
                        colorize,
                    ));
                }
                j2 = j2 + 1;
            }
            out.append("\n");
            proof {
                reveal_strlit("\n");
                assert("\n"@ =~= seq!['\n']);
                assert(out@ =~= header + body_lines(
                    self.columns@,
                    self.data@,
                    r + 1,
                    totals,
                    colorize,
                ));
            }
            r = r + 1;
        }
        proof {
            assert(out@ =~= spec_render(*self, colorize));
        }
        out
    }
}

impl Default for Table {
    fn default() -> (r: Table)
        ensures
            r.columns@.len() == 0,
            r.columns_cache@.len() == 0,
            r.data@.len() == 0,
            r.custom.entries@.len() == 0,
    {
        Table {
            columns: Vec::new(),
            columns_cache: Vec::new(),
            data: Vec::new(),
            custom: Row { entries: Vec::new() },
        }
    }
}

} // verus!
