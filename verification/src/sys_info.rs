use crate::common::{
    decimal_digits, pretty_text, two_decimal_digits, u64_digits, u64_digits_of_u128, BaseSize,
    BlockSize, PrettySize,
};
use crate::disk::{spec_free_bytes, StatvfsResult};
use crate::style::{Color, TextStyle};
use crate::table::{cell_input, totals_enabled, Column, RenderHook, Row, Table};
use crate::Commands;
use crate::text::{
    all_digits, digit_val, digits_value, is_digit, lemma_lex_total, lemma_lex_trans, lex_le,
    parsed_u64,
};
use vstd::prelude::*;

verus! {

/// One volume's display record; every field already rendered as text.
#[derive(Debug)]
pub struct DiskInfo {
    pub kind: String,
    pub name: String,
    pub file_system: String,
    pub mount_point: String,
    pub total: String,
    pub used: String,
    pub free: String,
    pub available: String,
    pub usage_rate: String,
    pub is_removable: String,
}

/// What the operating-system collaborator reports for one mounted volume,
/// as plain values, together with the outcome of the block-statistics call
/// for its mount path; a failed call carries nothing and the volume's free
/// space counts as zero.
#[derive(Debug)]
pub struct DiskVolume {
    pub kind: String,
    pub name: String,
    pub file_system: String,
    pub mount_point: String,
    pub total_space: u64,
    pub available_space: u64,
    pub is_removable: bool,
    pub free_stat: Option<StatvfsResult>,
}

/// A usage share with two decimal places, rounded half up; a zero total has
/// no meaningful share and is printed as the non-number it divides to.
pub open spec fn percent_text(used: nat, total: nat) -> Seq<char> {
    if total == 0 {
        seq!['N', 'a', 'N', '%']
    } else {
        let h = (((used * 10000 + total / 2) as int) / (total as int)) as nat;
        decimal_digits(h / 100) + seq!['.'] + two_decimal_digits(h % 100) + seq!['%']
    }
}

/// Renders a usage share of `used` out of `total`.
pub fn format_percent(used: u64, total: u64) -> (r: String)
    ensures
        r@ == percent_text(used as nat, total as nat),
{
    if total == 0 {
        let r = String::from_str("NaN%");
        proof {
            reveal_strlit("NaN%");
            assert(r@ =~= percent_text(used as nat, total as nat));
        }
        return r;
    }
    let h = ((used as u128) * 10000 + (total as u128) / 2) / (total as u128);
    let mut s = u64_digits_of_u128(h / 100);
    s.append(".");
    s.append(crate::common::two_digit_str(h % 100).as_str());
    s.append("%");
    proof {
        reveal_strlit(".");
        reveal_strlit("%");
        assert("."@ =~= seq!['.']);
        assert("%"@ =~= seq!['%']);
        assert(s@ =~= percent_text(used as nat, total as nat));
    }
    s
}

/// The row key of the disk column at each position.
pub open spec fn disk_key(i: int) -> Seq<char> {
    if i == 0 {
        seq!['n', 'a', 'm', 'e']
    } else if i == 1 {
        seq!['f', 'i', 'l', 'e', '_', 's', 'y', 's', 't', 'e', 'm']
    } else if i == 2 {
        seq!['k', 'i', 'n', 'd']
    } else if i == 3 {
        seq!['t', 'o', 't', 'a', 'l', '_', 's', 'p', 'a', 'c', 'e']
    } else if i == 4 {
        seq!['u', 's', 'e', 'd', '_', 's', 'p', 'a', 'c', 'e']
    } else if i == 5 {
        seq!['f', 'r', 'e', 'e', '_', 's', 'p', 'a', 'c', 'e']
    } else if i == 6 {
        seq!['a', 'v', 'a', 'i', 'l', 'a', 'b', 'l', 'e', '_', 's', 'p', 'a', 'c', 'e']
    } else if i == 7 {
        seq!['u', 's', 'a', 'g', 'e', '_', 'r', 'a', 't', 'e']
    } else if i == 8 {
        seq!['m', 'o', 'u', 'n', 't', '_', 'p', 'o', 'i', 'n', 't']
    } else {
        seq!['i', 's', '_', 'r', 'e', 'm', 'o', 'v', 'a', 'b', 'l', 'e']
    }
}

/// The display title of the disk column at each position.
pub open spec fn disk_title(i: int) -> Seq<char> {
    if i == 0 {
        seq!['D', 'e', 'v', 'i', 'c', 'e']
    } else if i == 1 {
        seq!['T', 'y', 'p', 'e']
    } else if i == 2 {
        seq!['K', 'i', 'n', 'd']
    } else if i == 3 {
        seq!['T', 'o', 't', 'a', 'l']
    } else if i == 4 {
        seq!['U', 's', 'e', 'd']
    } else if i == 5 {
        seq!['F', 'r', 'e', 'e']
    } else if i == 6 {
        seq!['A', 'v', 'a', 'i', 'l']
    } else if i == 7 {
        seq!['U', 's', 'e', '%']
    } else if i == 8 {
        seq!['M', 'o', 'u', 'n', 't', 'P', 'o', 'i', 'n', 't']
    } else {
        seq!['R', 'e', 'm', 'o', 'v', 'a', 'b', 'l', 'e']
    }
}

/// The color of the disk column at each position.
pub open spec fn disk_color(i: int) -> Color {
    if i == 0 {
        Color::Red
    } else if i == 1 {
        Color::Green
    } else if i == 2 {
        Color::Yellow
    } else if i == 3 {
        Color::Blue
    } else if i == 4 {
        Color::Magenta
    } else if i == 5 {
        Color::Cyan
    } else if i == 6 {
        Color::BrightRed
    } else if i == 7 {
        Color::BrightGreen
    } else if i == 8 {
        Color::BrightYellow
    } else {
        Color::BrightBlue
    }
}

/// Which disk columns are right-aligned: the four sizes and the share.
pub open spec fn disk_right(i: int) -> bool {
    3 <= i <= 7
}

/// Which disk columns are hidden unless every field was asked for.
pub open spec fn disk_hidden(i: int, all: bool) -> bool {
    (i == 6 || i == 9) && !all
}

/// No two disk columns share a key.
pub proof fn lemma_disk_keys_unique()
    ensures
        forall|i: int, j: int| 0 <= i < j < 10 ==> disk_key(i) != disk_key(j),
{
    assert forall|i: int, j: int| 0 <= i < j < 10 implies disk_key(i) != disk_key(j) by {
        if disk_key(i) == disk_key(j) {
            assert(disk_key(i).len() == disk_key(j).len());
            assert(disk_key(i)[0] == disk_key(j)[0]);
            assert(disk_key(i)[1] == disk_key(j)[1]);
            assert(disk_key(i)[2] == disk_key(j)[2]);
        }
    }
}

/// The ten disk columns, in display order, every one carrying the
/// totals-emphasis hook; widths start at zero and are computed by the
/// table.
pub fn disk_columns(all: bool) -> (r: Vec<Column>)
    ensures
        r@.len() == 10,
        forall|i: int|
            0 <= i < 10 ==> {
                let c = #[trigger] r@[i];
                c.key@ == disk_key(i) && c.title@ == disk_title(i) && c.width == 0 && c.hidden
                    == disk_hidden(i, all) && c.right_align == disk_right(i) && c.color == Some(
                    disk_color(i),
                ) && c.style == TextStyle::spec_plain() && c.render == Some(
                    RenderHook::TotalsEmphasis,
                )
            },
{
    proof {
        reveal_strlit("name");
        reveal_strlit("file_system");
        reveal_strlit("kind");
        reveal_strlit("total_space");
        reveal_strlit("used_space");
        reveal_strlit("free_space");
        reveal_strlit("available_space");
        reveal_strlit("usage_rate");
        reveal_strlit("mount_point");
        reveal_strlit("is_removable");
        reveal_strlit("Device");
        reveal_strlit("Type");
        reveal_strlit("Kind");
        reveal_strlit("Total");
        reveal_strlit("Used");
        reveal_strlit("Free");
        reveal_strlit("Avail");
        reveal_strlit("Use%");
        reveal_strlit("MountPoint");
        reveal_strlit("Removable");
        assert("name"@ =~= disk_key(0));
        assert("file_system"@ =~= disk_key(1));
        assert("kind"@ =~= disk_key(2));
        assert("total_space"@ =~= disk_key(3));
        assert("used_space"@ =~= disk_key(4));
        assert("free_space"@ =~= disk_key(5));
        assert("available_space"@ =~= disk_key(6));
        assert("usage_rate"@ =~= disk_key(7));
        assert("mount_point"@ =~= disk_key(8));
        assert("is_removable"@ =~= disk_key(9));
        assert("Device"@ =~= disk_title(0));
        assert("Type"@ =~= disk_title(1));
        assert("Kind"@ =~= disk_title(2));
        assert("Total"@ =~= disk_title(3));
        assert("Used"@ =~= disk_title(4));
        assert("Free"@ =~= disk_title(5));
        assert("Avail"@ =~= disk_title(6));
        assert("Use%"@ =~= disk_title(7));
        assert("MountPoint"@ =~= disk_title(8));
        assert("Removable"@ =~= disk_title(9));
    }
    let mut r: Vec<Column> = Vec::new();
    r.push(disk_column_at("name", "Device", false, false, Color::Red));
    r.push(disk_column_at("file_system", "Type", false, false, Color::Green));
    r.push(disk_column_at("kind", "Kind", false, false, Color::Yellow));
    r.push(disk_column_at("total_space", "Total", false, true, Color::Blue));
    r.push(disk_column_at("used_space", "Used", false, true, Color::Magenta));
    r.push(disk_column_at("free_space", "Free", false, true, Color::Cyan));
    r.push(disk_column_at("available_space", "Avail", !all, true, Color::BrightRed));
    r.push(disk_column_at("usage_rate", "Use%", false, true, Color::BrightGreen));
    r.push(disk_column_at("mount_point", "MountPoint", false, false, Color::BrightYellow));
    r.push(disk_column_at("is_removable", "Removable", !all, false, Color::BrightBlue));
    r
}

fn disk_column_at(key: &str, title: &str, hidden: bool, right_align: bool, color: Color) -> (r:
    Column)
    ensures
        r.key@ == key@,
        r.title@ == title@,
        r.width == 0,
        r.hidden == hidden,
        r.right_align == right_align,
        r.color == Some(color),
        r.style == TextStyle::spec_plain(),
        r.render == Some(RenderHook::TotalsEmphasis),
{
    Column {
        key: key.to_owned(),
        title: title.to_owned(),
        width: 0,
        hidden,
        right_align,
        color: Some(color),
        style: TextStyle::plain(),
        render: Some(RenderHook::TotalsEmphasis),
    }
}

/// The display text of a removable flag.
pub open spec fn bool_text(b: bool) -> Seq<char> {
    if b {
        seq!['t', 'r', 'u', 'e']
    } else {
        seq!['f', 'a', 'l', 's', 'e']
    }
}

/// The free bytes a volume's statistics call reported; a failed call
/// counts as zero.
pub open spec fn volume_free(v: DiskVolume) -> u64 {
    match v.free_stat {
        Some(s) => spec_free_bytes(s),
        None => 0,
    }
}

/// The used bytes of a volume: its total less the free bytes the
/// statistics call reported, and zero where the two sources disagree so
/// far that free exceeds total.
pub open spec fn volume_used(v: DiskVolume) -> u64 {
    if volume_free(v) <= v.total_space {
        (v.total_space - volume_free(v)) as u64
    } else {
        0
    }
}

/// The row key under which a volume's raw numeric field is stashed for
/// sorting: never rendered, never bound to a column.
pub open spec fn raw_key(i: int) -> Seq<char> {
    if i == 0 {
        seq!['t', 'o', 't', 'a', 'l']
    } else if i == 1 {
        seq!['u', 's', 'e', 'd']
    } else if i == 2 {
        seq!['f', 'r', 'e', 'e']
    } else {
        seq!['a', 'v', 'a', 'i', 'l', 'a', 'b', 'l', 'e']
    }
}

/// Everything a volume's row holds, as a function from row key to display
/// text: the textual identity fields, the four humanised sizes with their
/// raw stashes, the usage share, and the removable flag.
pub open spec fn vol_field(
    v: DiskVolume,
    base: BaseSize,
    block: BlockSize,
    k: Seq<char>,
) -> Option<Seq<char>> {
    if k == disk_key(0) {
        Some(v.name@)
    } else if k == disk_key(1) {
        Some(v.file_system@)
    } else if k == disk_key(2) {
        Some(v.kind@)
    } else if k == disk_key(3) {
        Some(pretty_text(v.total_space as nat, base, block))
    } else if k == raw_key(0) {
        Some(decimal_digits(v.total_space as nat))
    } else if k == disk_key(4) {
        Some(pretty_text(volume_used(v) as nat, base, block))
    } else if k == raw_key(1) {
        Some(decimal_digits(volume_used(v) as nat))
    } else if k == disk_key(5) {
        Some(pretty_text(volume_free(v) as nat, base, block))
    } else if k == raw_key(2) {
        Some(decimal_digits(volume_free(v) as nat))
    } else if k == disk_key(6) {
        Some(pretty_text(v.available_space as nat, base, block))
    } else if k == raw_key(3) {
        Some(decimal_digits(v.available_space as nat))
    } else if k == disk_key(7) {
        Some(percent_text(volume_used(v) as nat, v.total_space as nat))
    } else if k == disk_key(8) {
        Some(v.mount_point@)
    } else if k == disk_key(9) {
        Some(bool_text(v.is_removable))
    } else {
        None
    }
}

/// The row holds exactly a volume's fields.
pub open spec fn row_matches_vol(r: Row, v: DiskVolume, base: BaseSize, block: BlockSize) -> bool {
    forall|k: Seq<char>| #[trigger] r.value_of(k) == vol_field(v, base, block, k)
}

/// Builds the display row of one volume.
pub fn build_disk_row(v: &DiskVolume, base: BaseSize, block: BlockSize) -> (r: Row)
    ensures
        row_matches_vol(r, *v, base, block),
{
    proof {
        reveal_strlit("name");
        reveal_strlit("file_system");
        reveal_strlit("kind");
        reveal_strlit("total_space");
        reveal_strlit("total");
        reveal_strlit("used_space");
        reveal_strlit("used");
        reveal_strlit("free_space");
        reveal_strlit("free");
        reveal_strlit("available_space");
        reveal_strlit("available");
        reveal_strlit("usage_rate");
        reveal_strlit("mount_point");
        reveal_strlit("is_removable");
        reveal_strlit("true");
        reveal_strlit("false");
        assert("name"@ =~= disk_key(0));
        assert("file_system"@ =~= disk_key(1));
        assert("kind"@ =~= disk_key(2));
        assert("total_space"@ =~= disk_key(3));
        assert("total"@ =~= raw_key(0));
        assert("used_space"@ =~= disk_key(4));
        assert("used"@ =~= raw_key(1));
        assert("free_space"@ =~= disk_key(5));
        assert("free"@ =~= raw_key(2));
        assert("available_space"@ =~= disk_key(6));
        assert("available"@ =~= raw_key(3));
        assert("usage_rate"@ =~= disk_key(7));
        assert("mount_point"@ =~= disk_key(8));
        assert("is_removable"@ =~= disk_key(9));
        assert("true"@ =~= bool_text(true));
        assert("false"@ =~= bool_text(false));
    }
    let free = match &v.free_stat {
        Some(st) => crate::disk::free_bytes(st),
        None => 0u64,
    };
    let used = if free <= v.total_space {
        v.total_space - free
    } else {
        0u64
    };
    let removable = if v.is_removable {
        String::from_str("true")
    } else {
        String::from_str("false")
    };
    let mut r = Row::new();
    r.set(String::from_str("name"), v.name.clone());
    r.set(String::from_str("file_system"), v.file_system.clone());
    r.set(String::from_str("kind"), v.kind.clone());
    r.set(String::from_str("total_space"), v.total_space.pretty_size_with(base, block));
    r.set(String::from_str("total"), u64_digits(v.total_space));
    r.set(String::from_str("used_space"), used.pretty_size_with(base, block));
    r.set(String::from_str("used"), u64_digits(used));
    r.set(String::from_str("free_space"), free.pretty_size_with(base, block));
    r.set(String::from_str("free"), u64_digits(free));
    r.set(String::from_str("available_space"), v.available_space.pretty_size_with(base, block));
    r.set(String::from_str("available"), u64_digits(v.available_space));
    r.set(String::from_str("usage_rate"), format_percent(used, v.total_space));
    r.set(String::from_str("mount_point"), v.mount_point.clone());
    r.set(String::from_str("is_removable"), removable);
    proof {
        assert(free == volume_free(*v));
        assert(used == volume_used(*v));
        assert(forall|k: Seq<char>| #[trigger] r.value_of(k) == vol_field(*v, base, block, k));
    }
    r
}

/// A fatal input-validation failure: a unit token or an exclude expression
/// that cannot be understood. Either aborts the listing before any output.
#[derive(Debug)]
pub enum DiskError {
    InvalidBlockSize(String),
    InvalidExclude(String),
}

impl DiskError {
    /// The user-facing description of the failure.
    pub fn message(&self) -> (r: String)
        ensures
            match self {
                DiskError::InvalidBlockSize(s) => r@ == "Invalid BlockSize: "@ + s@,
                DiskError::InvalidExclude(s) => r@ == "Invalid exclude: "@ + s@,
            },
    {
        match self {
            DiskError::InvalidBlockSize(s) => {
                let mut m = String::from_str("Invalid BlockSize: ");
                m.append(s.as_str());
                m
            },
            DiskError::InvalidExclude(s) => {
                let mut m = String::from_str("Invalid exclude: ");
                m.append(s.as_str());
                m
            },
        }
    }
}

/// The key of the first column carrying a title, if any; the resolution an
/// exclude or sort field goes through.
pub open spec fn title_to_key(cols: Seq<Column>, title: Seq<char>) -> Option<Seq<char>>
    decreases cols.len(),
{
    if cols.len() == 0 {
        None
    } else if cols[0].title@ == title {
        Some(cols[0].key@)
    } else {
        title_to_key(cols.drop_first(), title)
    }
}

proof fn lemma_title_to_key_skip(cols: Seq<Column>, title: Seq<char>, i: int)
    requires
        0 <= i <= cols.len(),
        forall|j: int| 0 <= j < i ==> cols[j].title@ != title,
    ensures
        title_to_key(cols, title) == title_to_key(cols.skip(i), title),
    decreases i,
{
    if i > 0 {
        lemma_title_to_key_skip(cols.drop_first(), title, i - 1);
        assert(cols.drop_first().skip(i - 1) =~= cols.skip(i));
    } else {
        assert(cols.skip(0) =~= cols);
    }
}

/// Resolves a display title to its column's key.
pub fn find_key_by_title(columns: &Vec<Column>, title: &String) -> (r: Option<String>)
    ensures
        match r {
            Some(k) => title_to_key(columns@, title@) == Some(k@),
            None => title_to_key(columns@, title@) is None,
        },
{
    let n = columns.len();
    let mut i: usize = 0;
    while i < n
        invariant
            i <= n,
            n == columns@.len(),
            forall|j: int| 0 <= j < i ==> columns@[j].title@ != title@,
        decreases n - i,
    {
        if columns[i].title == *title {
            proof {
                lemma_title_to_key_skip(columns@, title@, i as int);
                assert(columns@.skip(i as int)[0] == columns@[i as int]);
            }
            return Some(columns[i].key.clone());
        }
        i = i + 1;
    }
    proof {
        lemma_title_to_key_skip(columns@, title@, n as int);
        assert(columns@.skip(n as int).len() == 0);
    }
    None
}

/// What an exclude expression resolves to: the expression must split at the
/// colon into exactly a field and a value list, and the field must be a
/// known column title; the values are everything between the commas.
pub open spec fn exclude_parsed(s: Seq<char>, cols: Seq<Column>) -> Option<
    (Seq<char>, Seq<Seq<char>>),
> {
    let parts = crate::text::split_seq(s, ':');
    if parts.len() != 2 {
        None
    } else {
        match title_to_key(cols, parts[0]) {
            Some(k) => Some((k, crate::text::split_seq(parts[1], ','))),
            None => None,
        }
    }
}

/// Parses an exclude expression against the column list: nothing for an
/// empty expression, the resolved key and value list for a well-formed one,
/// and the fatal error for anything else.
pub fn parse_exclude(exclude: &str, columns: &Vec<Column>) -> (r: Result<
    Option<(String, Vec<String>)>,
    DiskError,
>)
    ensures
        match r {
            Ok(opt) => match opt {
                None => exclude@.len() == 0,
                Some(kv) => exclude@.len() > 0 && exclude_parsed(exclude@, columns@) == Some(
                    (kv.0@, kv.1.deep_view()),
                ),
            },
            Err(e) => exclude@.len() > 0 && exclude_parsed(exclude@, columns@) is None && (match e {
                DiskError::InvalidExclude(t) => t@ == exclude@,
                _ => false,
            }),
        },
{
    if exclude.is_empty() {
        return Ok(None);
    }
    let parts = crate::text::split_str(exclude, ':');
    proof {
        assert(parts.deep_view().len() == parts@.len());
    }
    if parts.len() != 2 {
        return Err(DiskError::InvalidExclude(exclude.to_owned()));
    }
    proof {
        assert(parts.deep_view()[0] == parts@[0]@);
        assert(parts.deep_view()[1] == parts@[1]@);
    }
    match find_key_by_title(columns, &parts[0]) {
        Some(k) => {
            let vals = crate::text::split_str(parts[1].as_str(), ',');
            Ok(Some((k, vals)))
        },
        None => Err(DiskError::InvalidExclude(exclude.to_owned())),
    }
}

/// Whether a row's value under the resolved key equals one of the listed
/// values; rows without the key never match.
pub open spec fn excluded_row(key: Seq<char>, vals: Seq<Seq<char>>, row: Row) -> bool {
    match row.value_of(key) {
        Some(v) => vals.contains(v),
        None => false,
    }
}

/// Decides whether one row is removed by the exclusion filter.
pub fn exclude_record_disk(exclude_key: &String, exclude_vals: &Vec<String>, row: &Row) -> (r:
    bool)
    ensures
        r == excluded_row(exclude_key@, exclude_vals.deep_view(), *row),
{
    match row.get(exclude_key) {
        Some(val) => {
            let n = exclude_vals.len();
            let mut i: usize = 0;
            while i < n
                invariant
                    i <= n,
                    n == exclude_vals@.len(),
                    row.value_of(exclude_key@) == Some(val@),
                    forall|j: int| 0 <= j < i ==> exclude_vals@[j]@ != val@,
                decreases n - i,
            {
                if exclude_vals[i] == *val {
                    proof {
                        assert(exclude_vals.deep_view().len() == exclude_vals@.len());
                        assert(exclude_vals.deep_view()[i as int] == exclude_vals@[i as int]@);
                        assert(exclude_vals.deep_view()[i as int] == val@);
                        assert(exclude_vals.deep_view().contains(val@));
                    }
                    return true;
                }
                i = i + 1;
            }
            proof {
                assert(exclude_vals.deep_view().len() == exclude_vals@.len());
                if exclude_vals.deep_view().contains(val@) {
                    let j = choose|j: int|
                        0 <= j < exclude_vals.deep_view().len() && exclude_vals.deep_view()[j]
                            == val@;
                    assert(exclude_vals.deep_view()[j] == exclude_vals@[j]@);
                    assert(false);
                }
            }
            false
        },
        None => false,
    }
}

/// How rows are compared under a resolved sort key: byte-size columns by
/// the stashed numeric count, the usage column by its parsed share, and
/// everything else by text.
#[derive(Debug, Copy, Clone, PartialEq, Eq, Structural)]
pub enum SortKind {
    Numeric,
    Percent,
    Text,
}

/// A sort key with its trailing size-suffix stripped: a byte-size column's
/// key points at the raw numeric stash instead of the humanised text.
pub open spec fn stripped_key(k: Seq<char>) -> Seq<char> {
    if k.len() >= 6 && k.skip(k.len() - 6) == seq!['_', 's', 'p', 'a', 'c', 'e'] {
        k.take(k.len() - 6)
    } else {
        k
    }
}

/// Strips the size suffix off a resolved sort key.
pub fn strip_space_suffix(k: &String) -> (r: String)
    ensures
        r@ == stripped_key(k@),
{
    let st = k.as_str();
    let n = st.unicode_len();
    if n >= 6 {
        let sfx = st.substring_char(n - 6, n).to_owned();
        let tail = String::from_str("_space");
        proof {
            reveal_strlit("_space");
            assert("_space"@ =~= seq!['_', 's', 'p', 'a', 'c', 'e']);
            assert(sfx@ =~= k@.skip(n - 6));
        }
        if sfx == tail {
            let r = st.substring_char(0, n - 6).to_owned();
            proof {
                assert(r@ =~= k@.take(n - 6));
            }
            return r;
        }
        return k.clone();
    }
    k.clone()
}

/// The comparison class a stripped sort key selects.
pub open spec fn sort_kind_of(k: Seq<char>) -> SortKind {
    if k == raw_key(0) || k == raw_key(1) || k == raw_key(2) || k == raw_key(3) {
        SortKind::Numeric
    } else if k == disk_key(7) {
        SortKind::Percent
    } else {
        SortKind::Text
    }
}

fn str_is_lit(s: &String, lit: &str) -> (r: bool)
    ensures
        r == (s@ == lit@),
{
    let t = lit.to_owned();
    *s == t
}

/// Picks the comparison class of a stripped sort key.
pub fn sort_kind(k: &String) -> (r: SortKind)
    ensures
        r == sort_kind_of(k@),
{
    proof {
        reveal_strlit("total");
        reveal_strlit("used");
        reveal_strlit("free");
        reveal_strlit("available");
        reveal_strlit("usage_rate");
        assert("total"@ =~= raw_key(0));
        assert("used"@ =~= raw_key(1));
        assert("free"@ =~= raw_key(2));
        assert("available"@ =~= raw_key(3));
        assert("usage_rate"@ =~= disk_key(7));
    }
    if str_is_lit(k, "total") || str_is_lit(k, "used") || str_is_lit(k, "free") || str_is_lit(
        k,
        "available",
    ) {
        SortKind::Numeric
    } else if str_is_lit(k, "usage_rate") {
        SortKind::Percent
    } else {
        SortKind::Text
    }
}

/// The numeric count a row sorts by under a stash key; anything that does
/// not parse, or a missing key, counts as zero.
pub open spec fn num_sort_val(row: Row, k: Seq<char>) -> u64 {
    match row.value_of(k) {
        Some(v) => match parsed_u64(v) {
            Some(x) => x,
            None => 0,
        },
        None => 0,
    }
}

fn num_sort_value(row: &Row, key: &String) -> (r: u64)
    ensures
        r == num_sort_val(*row, key@),
{
    match row.get(key) {
        Some(v) => match crate::text::parse_u64(v) {
            Some(x) => x,
            None => 0,
        },
        None => 0,
    }
}

/// A value held at the 64-bit ceiling.
pub open spec fn clamp_u64(x: nat) -> u64 {
    if x <= u64::MAX {
        x as u64
    } else {
        u64::MAX
    }
}

/// The hundredths a share string is worth once its percent sign is gone: a
/// bare digit string, or digits with a dot and two more digits, the shapes
/// the pipeline itself writes; anything else is worth zero.
pub open spec fn fixed_hundredths(t: Seq<char>) -> u64 {
    if t.len() > 0 && all_digits(t) {
        clamp_u64(digits_value(t) * 100)
    } else if t.len() >= 4 && t[t.len() - 3] == '.' && all_digits(t.take(t.len() - 3)) && is_digit(
        t[t.len() - 2],
    ) && is_digit(t[t.len() - 1]) {
        clamp_u64(
            digits_value(t.take(t.len() - 3)) * 100 + digit_val(t[t.len() - 2]) * 10 + digit_val(
                t[t.len() - 1],
            ),
        )
    } else {
        0
    }
}

/// What a row's usage column sorts by: its text without the final percent
/// sign, read as hundredths.
pub open spec fn pct_sort_val(row: Row) -> u64 {
    match row.value_of(disk_key(7)) {
        Some(v) => if v.len() == 0 {
            0
        } else {
            fixed_hundredths(v.drop_last())
        },
        None => 0,
    }
}

/// Reads a digit string's worth in hundredths, at the 64-bit ceiling.
fn digits_times_100(t: &String, frac: u64) -> (r: u64)
    requires
        t@.len() > 0,
        all_digits(t@),
        frac < 100,
    ensures
        r == clamp_u64((digits_value(t@) * 100 + frac) as nat),
{
    match crate::text::parse_u64(t) {
        Some(w) => match w.checked_mul(100) {
            Some(x) => match x.checked_add(frac) {
                Some(y) => y,
                None => u64::MAX,
            },
            None => u64::MAX,
        },
        None => {
            proof {
                assert(digits_value(t@) > u64::MAX);
                assert(digits_value(t@) * 100 + frac > u64::MAX) by (nonlinear_arith)
                    requires
                        digits_value(t@) > u64::MAX,
                ;
            }
            u64::MAX
        },
    }
}

fn pct_sort_value(row: &Row) -> (r: u64)
    ensures
        r == pct_sort_val(*row),
{
    proof {
        reveal_strlit("usage_rate");
        assert("usage_rate"@ =~= disk_key(7));
    }
    let key = String::from_str("usage_rate");
    let v = match row.get(&key) {
        Some(v) => v,
        None => {
            return 0;
        },
    };
    let st = v.as_str();
    let n = st.unicode_len();
    if n == 0 {
        return 0;
    }
    let t = st.substring_char(0, n - 1).to_owned();
    proof {
        assert(t@ =~= v@.drop_last());
    }
    let tn = n - 1;
    proof {
        assert(tn == t@.len());
    }
    if tn > 0 && crate::text::is_all_digits(&t) {
        return digits_times_100(&t, 0);
    }
    if tn >= 4 {
        let ts = t.as_str();
        let dot = ts.get_char(tn - 3);
        let d1 = ts.get_char(tn - 2);
        let d0 = ts.get_char(tn - 1);
        if dot == '.' && crate::text::is_digit_char(d1) && crate::text::is_digit_char(d0) {
            let whole = ts.substring_char(0, tn - 3).to_owned();
            proof {
                assert(whole@ =~= t@.take(tn - 3));
            }
            if whole.as_str().unicode_len() > 0 && crate::text::is_all_digits(&whole) {
                let f = ((d1 as u32 - 48) * 10 + (d0 as u32 - 48)) as u64;
                proof {
                    vstd::utf8::char_u32_cast(d1, d1 as u32);
                    vstd::utf8::char_u32_cast(d0, d0 as u32);
                    assert(f == digit_val(t@[tn - 2]) * 10 + digit_val(t@[tn - 1]));
                }
                return digits_times_100(&whole, f);
            }
            return 0;
        }
        return 0;
    }
    return 0;
}

/// The order rows are sorted in under a comparison class and key.
pub open spec fn row_le(kind: SortKind, k: Seq<char>, a: Row, b: Row) -> bool {
    match kind {
        SortKind::Numeric => num_sort_val(a, k) <= num_sort_val(b, k),
        SortKind::Percent => pct_sort_val(a) <= pct_sort_val(b),
        SortKind::Text => lex_le(cell_input(a, k), cell_input(b, k)),
    }
}

/// Any two rows are comparable.
pub proof fn lemma_row_le_total(kind: SortKind, k: Seq<char>, a: Row, b: Row)
    ensures
        row_le(kind, k, a, b) || row_le(kind, k, b, a),
{
    if kind is Text {
        lemma_lex_total(cell_input(a, k), cell_input(b, k));
    }
}

/// The row order is transitive.
pub proof fn lemma_row_le_trans(kind: SortKind, k: Seq<char>, a: Row, b: Row, c: Row)
    requires
        row_le(kind, k, a, b),
        row_le(kind, k, b, c),
    ensures
        row_le(kind, k, a, c),
{
    if kind is Text {
        lemma_lex_trans(cell_input(a, k), cell_input(b, k), cell_input(c, k));
    }
}

/// Compares two rows under a comparison class and key.
fn row_le_exec(kind: SortKind, key: &String, a: &Row, b: &Row) -> (r: bool)
    ensures
        r == row_le(kind, key@, *a, *b),
{
    match kind {
        SortKind::Numeric => num_sort_value(a, key) <= num_sort_value(b, key),
        SortKind::Percent => pct_sort_value(a) <= pct_sort_value(b),
        SortKind::Text => {
            let va = match a.get(key) {
                Some(v) => v.clone(),
                None => String::new(),
            };
            let vb = match b.get(key) {
                Some(v) => v.clone(),
                None => String::new(),
            };
            crate::text::str_le(&va, &vb)
        },
    }
}

/// A rearrangement of the positions below `n`.
pub open spec fn is_permutation(p: Seq<int>, n: int) -> bool {
    &&& p.len() == n
    &&& forall|i: int| 0 <= i < n ==> 0 <= #[trigger] p[i] < n
    &&& forall|i: int, j: int| 0 <= i < j < n ==> p[i] != p[j]
}

/// Where each position of a sequence comes from after the element at `i`
/// moves to `pos`.
pub open spec fn moved_from(t: int, pos: int, i: int) -> int {
    if t < pos {
        t
    } else if t == pos {
        i
    } else if t <= i {
        t - 1
    } else {
        t
    }
}

/// Stable insertion sort under the row order; the rows afterwards are the
/// rows before, rearranged and sorted.
pub fn sort_rows(rows: &mut Vec<Row>, kind: SortKind, key: &String)
    ensures
        final(rows)@.len() == old(rows)@.len(),
        exists|p: Seq<int>|
            is_permutation(p, old(rows)@.len() as int) && (forall|t: int|
                0 <= t < p.len() ==> final(rows)@[t] == old(rows)@[#[trigger] p[t]]),
        forall|a: int, b: int|
            0 <= a < b < final(rows)@.len() ==> row_le(kind, key@, final(rows)@[a], final(rows)@[b]),
{
    let n = rows.len();
    let ghost orig = rows@;
    let ghost mut perm: Seq<int> = Seq::new(n as nat, |t: int| t);
    let mut i: usize = 1;
    while i < n
        invariant
            1 <= i || n == 0,
            i <= n || n == 0,
            rows@.len() == n,
            orig.len() == n,
            is_permutation(perm, n as int),
            forall|t: int| 0 <= t < n ==> rows@[t] == orig[#[trigger] perm[t]],
            forall|a: int, b: int|
                0 <= a < b < i && b < n ==> row_le(kind, key@, rows@[a], rows@[b]),
        decreases n - i,
    {
        let mut pos: usize = 0;
        while pos < i && row_le_exec(kind, key, &rows[pos], &rows[i])
            invariant
                pos <= i < n,
                rows@.len() == n,
                forall|j: int| 0 <= j < pos ==> row_le(kind, key@, rows@[j], rows@[i as int]),
            decreases i - pos,
        {
            pos = pos + 1;
        }
        if pos < i {
            let ghost pre = rows@;
            let ghost prep = perm;
            let x = rows.remove(i);
            rows.insert(pos, x);
            proof {
                perm = prep.remove(i as int).insert(pos as int, prep[i as int]);
                assert forall|t: int| 0 <= t < n implies rows@[t] == pre[moved_from(
                    t,
                    pos as int,
                    i as int,
                )] by {}
                assert forall|t: int| 0 <= t < n implies perm[t] == prep[moved_from(
                    t,
                    pos as int,
                    i as int,
                )] by {}
                assert forall|s: int, t: int| 0 <= s < t < n implies perm[s] != perm[t] by {
                    assert(moved_from(s, pos as int, i as int) != moved_from(
                        t,
                        pos as int,
                        i as int,
                    ));
                }
                assert(is_permutation(perm, n as int));
                assert forall|t: int| 0 <= t < n implies rows@[t] == orig[#[trigger] perm[t]] by {
                    let m = moved_from(t, pos as int, i as int);
                    assert(rows@[t] == pre[m]);
                    assert(pre[m] == orig[prep[m]]);
                }
                lemma_row_le_total(kind, key@, pre[pos as int], pre[i as int]);
                assert(row_le(kind, key@, pre[i as int], pre[pos as int]));
                assert forall|a: int, b: int| 0 <= a < b < i + 1 && b < n implies row_le(
                    kind,
                    key@,
                    rows@[a],
                    rows@[b],
                ) by {
                    let ma = moved_from(a, pos as int, i as int);
                    let mb = moved_from(b, pos as int, i as int);
                    if a == pos {
                        if mb > pos {
                            lemma_row_le_trans(
                                kind,
                                key@,
                                pre[i as int],
                                pre[pos as int],
                                pre[mb],
                            );
                        }
                    }
                }
            }
        }
        i = i + 1;
    }
    proof {
        if n == 0 {
            assert(is_permutation(perm, 0));
        }
    }
}

/// Everything the synthetic totals row holds: the marker name, the four
/// summed sizes, and the share recomputed from the summed used and total.
pub open spec fn totals_field(
    tt: u64,
    tu: u64,
    tf: u64,
    ta: u64,
    base: BaseSize,
    block: BlockSize,
    k: Seq<char>,
) -> Option<Seq<char>> {
    if k == disk_key(0) {
        Some(seq!['t', 'o', 't', 'a', 'l'])
    } else if k == disk_key(3) {
        Some(pretty_text(tt as nat, base, block))
    } else if k == disk_key(4) {
        Some(pretty_text(tu as nat, base, block))
    } else if k == disk_key(5) {
        Some(pretty_text(tf as nat, base, block))
    } else if k == disk_key(6) {
        Some(pretty_text(ta as nat, base, block))
    } else if k == disk_key(7) {
        Some(percent_text(tu as nat, tt as nat))
    } else {
        None
    }
}

/// Builds the synthetic totals row.
pub fn totals_row(tt: u64, tu: u64, tf: u64, ta: u64, base: BaseSize, block: BlockSize) -> (r:
    Row)
    ensures
        forall|k: Seq<char>|
            #[trigger] r.value_of(k) == totals_field(tt, tu, tf, ta, base, block, k),
{
    proof {
        reveal_strlit("name");
        reveal_strlit("total");
        reveal_strlit("total_space");
        reveal_strlit("used_space");
        reveal_strlit("free_space");
        reveal_strlit("available_space");
        reveal_strlit("usage_rate");
        assert("name"@ =~= disk_key(0));
        assert("total"@ =~= seq!['t', 'o', 't', 'a', 'l']);
        assert("total_space"@ =~= disk_key(3));
        assert("used_space"@ =~= disk_key(4));
        assert("free_space"@ =~= disk_key(5));
        assert("available_space"@ =~= disk_key(6));
        assert("usage_rate"@ =~= disk_key(7));
    }
    let mut r = Row::new();
    r.set(String::from_str("name"), String::from_str("total"));
    r.set(String::from_str("total_space"), tt.pretty_size_with(base, block));
    r.set(String::from_str("used_space"), tu.pretty_size_with(base, block));
    r.set(String::from_str("free_space"), tf.pretty_size_with(base, block));
    r.set(String::from_str("available_space"), ta.pretty_size_with(base, block));
    r.set(String::from_str("usage_rate"), format_percent(tu, tt));
    proof {
        assert(forall|k: Seq<char>|
            #[trigger] r.value_of(k) == totals_field(tt, tu, tf, ta, base, block, k));
    }
    r
}

/// Addition held at the 64-bit ceiling.
pub open spec fn sat_add(a: u64, b: u64) -> u64 {
    if a + b <= u64::MAX {
        (a + b) as u64
    } else {
        u64::MAX
    }
}

fn sat_add_exec(a: u64, b: u64) -> (r: u64)
    ensures
        r == sat_add(a, b),
{
    match a.checked_add(b) {
        Some(v) => v,
        None => u64::MAX,
    }
}

/// Whether a volume passes the exclusion filter.
pub open spec fn survives(
    v: DiskVolume,
    filt: Option<(Seq<char>, Seq<Seq<char>>)>,
    base: BaseSize,
    block: BlockSize,
) -> bool {
    match filt {
        None => true,
        Some(kv) => !(match vol_field(v, base, block, kv.0) {
            Some(t) => kv.1.contains(t),
            None => false,
        }),
    }
}

/// The volumes that pass the exclusion filter, in their reported order.
pub open spec fn surviving(
    vols: Seq<DiskVolume>,
    filt: Option<(Seq<char>, Seq<Seq<char>>)>,
    base: BaseSize,
    block: BlockSize,
) -> Seq<DiskVolume>
    decreases vols.len(),
{
    if vols.len() == 0 {
        Seq::empty()
    } else {
        let rest = surviving(vols.drop_last(), filt, base, block);
        if survives(vols.last(), filt, base, block) {
            rest.push(vols.last())
        } else {
            rest
        }
    }
}

/// The summed total bytes of a volume list, at the 64-bit ceiling.
pub open spec fn total_sum(vols: Seq<DiskVolume>) -> u64
    decreases vols.len(),
{
    if vols.len() == 0 {
        0
    } else {
        sat_add(total_sum(vols.drop_last()), vols.last().total_space)
    }
}

/// The summed used bytes of a volume list, at the 64-bit ceiling.
pub open spec fn used_sum(vols: Seq<DiskVolume>) -> u64
    decreases vols.len(),
{
    if vols.len() == 0 {
        0
    } else {
        sat_add(used_sum(vols.drop_last()), volume_used(vols.last()))
    }
}

/// The summed free bytes of a volume list, at the 64-bit ceiling.
pub open spec fn free_sum(vols: Seq<DiskVolume>) -> u64
    decreases vols.len(),
{
    if vols.len() == 0 {
        0
    } else {
        sat_add(free_sum(vols.drop_last()), volume_free(vols.last()))
    }
}

/// The summed available bytes of a volume list, at the 64-bit ceiling.
pub open spec fn avail_sum(vols: Seq<DiskVolume>) -> u64
    decreases vols.len(),
{
    if vols.len() == 0 {
        0
    } else {
        sat_add(avail_sum(vols.drop_last()), vols.last().available_space)
    }
}

fn volume_free_exec(v: &DiskVolume) -> (r: u64)
    ensures
        r == volume_free(*v),
{
    match &v.free_stat {
        Some(st) => crate::disk::free_bytes(st),
        None => 0u64,
    }
}

fn volume_used_exec(v: &DiskVolume) -> (r: u64)
    ensures
        r == volume_used(*v),
{
    let free = volume_free_exec(v);
    if free <= v.total_space {
        v.total_space - free
    } else {
        0u64
    }
}

/// The title resolution of the disk column set, as a plain function of the
/// title.
pub open spec fn disk_title_to_key(title: Seq<char>) -> Option<Seq<char>> {
    if title == disk_title(0) {
        Some(disk_key(0))
    } else if title == disk_title(1) {
        Some(disk_key(1))
    } else if title == disk_title(2) {
        Some(disk_key(2))
    } else if title == disk_title(3) {
        Some(disk_key(3))
    } else if title == disk_title(4) {
        Some(disk_key(4))
    } else if title == disk_title(5) {
        Some(disk_key(5))
    } else if title == disk_title(6) {
        Some(disk_key(6))
    } else if title == disk_title(7) {
        Some(disk_key(7))
    } else if title == disk_title(8) {
        Some(disk_key(8))
    } else if title == disk_title(9) {
        Some(disk_key(9))
    } else {
        None
    }
}

/// On the disk column set, scanning by title is the plain resolution.
proof fn lemma_disk_title_resolution(cols: Seq<Column>, title: Seq<char>)
    requires
        cols.len() == 10,
        forall|i: int|
            0 <= i < 10 ==> (#[trigger] cols[i]).key@ == disk_key(i) && cols[i].title@
                == disk_title(i),
    ensures
        title_to_key(cols, title) == disk_title_to_key(title),
{
    let c9 = cols.skip(9);
    let c8 = cols.skip(8);
    let c7 = cols.skip(7);
    let c6 = cols.skip(6);
    let c5 = cols.skip(5);
    let c4 = cols.skip(4);
    let c3 = cols.skip(3);
    let c2 = cols.skip(2);
    let c1 = cols.skip(1);
    assert(cols.skip(10).len() == 0);
    assert(c9.drop_first() =~= cols.skip(10));
    assert(c8.drop_first() =~= c9);
    assert(c7.drop_first() =~= c8);
    assert(c6.drop_first() =~= c7);
    assert(c5.drop_first() =~= c6);
    assert(c4.drop_first() =~= c5);
    assert(c3.drop_first() =~= c4);
    assert(c2.drop_first() =~= c3);
    assert(c1.drop_first() =~= c2);
    assert(cols.drop_first() =~= c1);
    assert(c9[0] == cols[9]);
    assert(c8[0] == cols[8]);
    assert(c7[0] == cols[7]);
    assert(c6[0] == cols[6]);
    assert(c5[0] == cols[5]);
    assert(c4[0] == cols[4]);
    assert(c3[0] == cols[3]);
    assert(c2[0] == cols[2]);
    assert(c1[0] == cols[1]);
    assert(title_to_key(cols.skip(10), title) is None);
    assert(title_to_key(c9, title) == (if title == disk_title(9) {
        Some(disk_key(9))
    } else {
        title_to_key(cols.skip(10), title)
    }));
    assert(title_to_key(c8, title) == (if title == disk_title(8) {
        Some(disk_key(8))
    } else {
        title_to_key(c9, title)
    }));
    assert(title_to_key(c7, title) == (if title == disk_title(7) {
        Some(disk_key(7))
    } else {
        title_to_key(c8, title)
    }));
    assert(title_to_key(c6, title) == (if title == disk_title(6) {
        Some(disk_key(6))
    } else {
        title_to_key(c7, title)
    }));
    assert(title_to_key(c5, title) == (if title == disk_title(5) {
        Some(disk_key(5))
    } else {
        title_to_key(c6, title)
    }));
    assert(title_to_key(c4, title) == (if title == disk_title(4) {
        Some(disk_key(4))
    } else {
        title_to_key(c5, title)
    }));
    assert(title_to_key(c3, title) == (if title == disk_title(3) {
        Some(disk_key(3))
    } else {
        title_to_key(c4, title)
    }));
    assert(title_to_key(c2, title) == (if title == disk_title(2) {
        Some(disk_key(2))
    } else {
        title_to_key(c3, title)
    }));
    assert(title_to_key(c1, title) == (if title == disk_title(1) {
        Some(disk_key(1))
    } else {
        title_to_key(c2, title)
    }));
    assert(title_to_key(cols, title) == (if title == disk_title(0) {
        Some(disk_key(0))
    } else {
        title_to_key(c1, title)
    }));
}

/// The base the size flags select; powers of 1024 unless only the metric
/// flag is set.
pub open spec fn resolved_base(human_readable: bool, si: bool) -> BaseSize {
    if human_readable {
        BaseSize::Size1024
    } else if si {
        BaseSize::Size1000
    } else {
        BaseSize::Size1024
    }
}

/// Whether the unit token is empty or well-formed.
pub open spec fn block_ok(bs: Seq<char>) -> bool {
    bs.len() == 0 || crate::common::parsed_block(bs) is Some
}

/// The unit the token selects; the automatic unit when the token is empty.
pub open spec fn resolved_block(bs: Seq<char>) -> BlockSize {
    if bs.len() == 0 {
        BlockSize::Auto
    } else {
        match crate::common::parsed_block(bs) {
            Some(b) => b,
            None => BlockSize::Auto,
        }
    }
}

/// An exclude expression resolved against the disk columns.
pub open spec fn exclude_parsed_disk(s: Seq<char>) -> Option<(Seq<char>, Seq<Seq<char>>)> {
    let parts = crate::text::split_seq(s, ':');
    if parts.len() != 2 {
        None
    } else {
        match disk_title_to_key(parts[0]) {
            Some(k) => Some((k, crate::text::split_seq(parts[1], ','))),
            None => None,
        }
    }
}

/// Whether the exclude expression is empty or well-formed.
pub open spec fn exclude_ok(exclude: Seq<char>) -> bool {
    exclude.len() == 0 || exclude_parsed_disk(exclude) is Some
}

/// The filter the exclude expression selects; an empty expression filters
/// nothing.
pub open spec fn disk_filter(exclude: Seq<char>) -> Option<(Seq<char>, Seq<Seq<char>>)> {
    if exclude.len() == 0 {
        None
    } else {
        exclude_parsed_disk(exclude)
    }
}

/// The row key the sort field resolves to, size suffix stripped; an empty
/// or unknown field sorts nothing.
pub open spec fn disk_sort_key(sort: Seq<char>) -> Option<Seq<char>> {
    if sort.len() > 0 {
        match disk_title_to_key(sort) {
            Some(k) => Some(stripped_key(k)),
            None => None,
        }
    } else {
        None
    }
}

proof fn lemma_exclude_parsed_disk(cols: Seq<Column>, s: Seq<char>)
    requires
        cols.len() == 10,
        forall|i: int|
            0 <= i < 10 ==> (#[trigger] cols[i]).key@ == disk_key(i) && cols[i].title@
                == disk_title(i),
    ensures
        exclude_parsed(s, cols) == exclude_parsed_disk(s),
{
    let parts = crate::text::split_seq(s, ':');
    crate::text::lemma_split_len(s, ':');
    if parts.len() == 2 {
        lemma_disk_title_resolution(cols, parts[0]);
    }
}

/// One disk column as it stands in a finished table: its fixed identity
/// and display attributes, and its width computed over the rows.
pub open spec fn disk_column_ok(c: Column, i: int, all: bool, rows: Seq<Row>) -> bool {
    &&& c.key@ == disk_key(i)
    &&& c.title@ == disk_title(i)
    &&& c.hidden == disk_hidden(i, all)
    &&& c.right_align == disk_right(i)
    &&& c.color == Some(disk_color(i))
    &&& c.style == TextStyle::spec_plain()
    &&& c.render == Some(RenderHook::TotalsEmphasis)
    &&& c.width as nat == crate::table::nat_max(
        disk_title(i).len(),
        crate::table::rows_key_max(rows, disk_key(i)),
    )
}

/// The whole shape of a finished disk table: the ten columns with computed
/// widths, the context flag, the surviving volumes' rows as a
/// rearrangement that is sorted when a sort field applies and untouched
/// when none does, and, when totals are on, one last row holding the sums.
pub open spec fn disk_table_ok(
    tab: Table,
    vols: Seq<DiskVolume>,
    all: bool,
    sort: Seq<char>,
    exclude: Seq<char>,
    total: bool,
    base: BaseSize,
    block: BlockSize,
) -> bool {
    let filt = disk_filter(exclude);
    let sv = surviving(vols, filt, base, block);
    let nmain = sv.len() as int;
    &&& tab.wf()
    &&& tab.columns@.len() == 10
    &&& forall|i: int| 0 <= i < 10 ==> disk_column_ok(#[trigger] tab.columns@[i], i, all, tab.data@)
    &&& totals_enabled(tab.custom) == total
    &&& tab.data@.len() == nmain + (if total {
        1int
    } else {
        0int
    })
    &&& exists|p: Seq<int>|
        is_permutation(p, nmain) && (forall|t: int|
            0 <= t < nmain ==> row_matches_vol(#[trigger] tab.data@[t], sv[p[t]], base, block))
    &&& (disk_sort_key(sort) is None ==> forall|t: int|
        0 <= t < nmain ==> row_matches_vol(#[trigger] tab.data@[t], sv[t], base, block))
    &&& (match disk_sort_key(sort) {
        Some(k) => forall|a: int, b: int|
            0 <= a < b < nmain ==> row_le(
                sort_kind_of(k),
                k,
                #[trigger] tab.data@[a],
                #[trigger] tab.data@[b],
            ),
        None => true,
    })
    &&& (total ==> forall|k: Seq<char>|
        #[trigger] tab.data@.last().value_of(k) == totals_field(
            total_sum(sv),
            used_sum(sv),
            free_sum(sv),
            avail_sum(sv),
            base,
            block,
            k,
        ))
}

/// Builds the disk listing: collects one row per reported volume, applies
/// the exclusion filter, sorts when a sort field resolves, appends the
/// totals row when asked, and hands columns, rows and the context flag to
/// the table. A malformed unit token or exclude expression aborts with the
/// fatal error instead.
pub fn disk_report(volumes: &Vec<DiskVolume>, cmd: &Commands) -> (r: Result<Table, DiskError>)
    requires
        (*cmd matches Commands::Disk { .. }),
    ensures
        (match *cmd {
            Commands::Disk { all, sort, exclude, total, human_readable, si, block_size } => {
                let base = resolved_base(human_readable, si);
                match r {
                    Ok(tab) => block_ok(block_size@) && exclude_ok(exclude@) && disk_table_ok(
                        tab,
                        volumes@,
                        all,
                        sort@,
                        exclude@,
                        total,
                        base,
                        resolved_block(block_size@),
                    ),
                    Err(DiskError::InvalidBlockSize(t)) => block_size@.len() > 0
                        && crate::common::parsed_block(block_size@) is None && t@ == block_size@,
                    Err(DiskError::InvalidExclude(t)) => block_ok(block_size@) && exclude@.len()
                        > 0 && exclude_parsed_disk(exclude@) is None && t@ == exclude@,
                }
            },
            _ => true,
        }),
{
    match cmd {
        Commands::Disk { all, sort, exclude, total, human_readable, si, block_size } => {
            let all = *all;
            let total = *total;
            let base = if *human_readable {
                BaseSize::Size1024
            } else if *si {
                BaseSize::Size1000
            } else {
                BaseSize::Size1024
            };
            let mut block = BlockSize::Auto;
            if !block_size.as_str().is_empty() {
                match BlockSize::parse_token(block_size.as_str()) {
                    Ok(b) => {
                        block = b;
                    },
                    Err(_) => {
                        return Err(DiskError::InvalidBlockSize(block_size.clone()));
                    },
                }
            }
            let columns = disk_columns(all);
            let filt = match parse_exclude(exclude.as_str(), &columns) {
                Ok(f) => f,
                Err(e) => {
                    proof {
                        lemma_exclude_parsed_disk(columns@, exclude@);
                    }
                    return Err(e);
                },
            };
            proof {
                lemma_exclude_parsed_disk(columns@, exclude@);
            }
            let ghost gfilt = disk_filter(exclude@);
            proof {
                assert(match filt {
                    Some(kv) => gfilt == Some((kv.0@, kv.1.deep_view())),
                    None => gfilt is None,
                });
            }
            let mut data: Vec<Row> = Vec::new();
            let mut tot: u64 = 0;
            let mut tus: u64 = 0;
            let mut tfr: u64 = 0;
            let mut tav: u64 = 0;
            let nv = volumes.len();
            let mut i: usize = 0;
            while i < nv
                invariant
                    i <= nv,
                    nv == volumes@.len(),
                    (match filt {
                        Some(kv) => gfilt == Some((kv.0@, kv.1.deep_view())),
                        None => gfilt is None,
                    }),
                    data@.len() == surviving(volumes@.take(i as int), gfilt, base, block).len(),
                    forall|t: int|
                        0 <= t < data@.len() ==> row_matches_vol(
                            #[trigger] data@[t],
                            surviving(volumes@.take(i as int), gfilt, base, block)[t],
                            base,
                            block,
                        ),
                    tot == total_sum(surviving(volumes@.take(i as int), gfilt, base, block)),
                    tus == used_sum(surviving(volumes@.take(i as int), gfilt, base, block)),
                    tfr == free_sum(surviving(volumes@.take(i as int), gfilt, base, block)),
                    tav == avail_sum(surviving(volumes@.take(i as int), gfilt, base, block)),
                decreases nv - i,
            {
                let v = &volumes[i];
                let row = build_disk_row(v, base, block);
                let excl = match &filt {
                    Some(kv) => exclude_record_disk(&kv.0, &kv.1, &row),
                    None => false,
                };
                proof {
                    assert(excl == !survives(volumes@[i as int], gfilt, base, block));
                    assert(volumes@.take(i + 1).drop_last() =~= volumes@.take(i as int));
                    assert(volumes@.take(i + 1).last() == volumes@[i as int]);
                }
                if !excl {
                    tot = sat_add_exec(tot, v.total_space);
                    tus = sat_add_exec(tus, volume_used_exec(v));
                    tfr = sat_add_exec(tfr, volume_free_exec(v));
                    tav = sat_add_exec(tav, v.available_space);
                    data.push(row);
                    proof {
                        let svn = surviving(volumes@.take(i + 1), gfilt, base, block);
                        assert(svn.drop_last() =~= surviving(
                            volumes@.take(i as int),
                            gfilt,
                            base,
                            block,
                        ));
                    }
                }
                i = i + 1;
            }
            proof {
                assert(volumes@.take(nv as int) =~= volumes@);
            }
            let ghost sv = surviving(volumes@, gfilt, base, block);
            let ghost pre_sort = data@;
            let ghost mut sorted_with: Option<Seq<char>> = None;
            if !sort.as_str().is_empty() {
                match find_key_by_title(&columns, sort) {
                    Some(k0) => {
                        let k = strip_space_suffix(&k0);
                        let kind = sort_kind(&k);
                        sort_rows(&mut data, kind, &k);
                        proof {
                            lemma_disk_title_resolution(columns@, sort@);
                            assert(disk_sort_key(sort@) == Some(k@));
                            sorted_with = Some(k@);
                        }
                    },
                    None => {
                        proof {
                            lemma_disk_title_resolution(columns@, sort@);
                            assert(disk_sort_key(sort@) is None);
                        }
                    },
                }
            }
            proof {
                assert(sorted_with == disk_sort_key(sort@));
                if sorted_with is None {
                    assert(data@ == pre_sort);
                }
            }
            let ghost main_rows = data@;
            if total {
                data.push(totals_row(tot, tus, tfr, tav, base, block));
            }
            let mut custom = Row::new();
            let flag = if total {
                String::from_str("true")
            } else {
                String::from_str("false")
            };
            custom.set(String::from_str("total"), flag);
            proof {
                reveal_strlit("total");
                reveal_strlit("true");
                reveal_strlit("false");
                assert("total"@ =~= seq!['t', 'o', 't', 'a', 'l']);
                assert("true"@ =~= seq!['t', 'r', 'u', 'e']);
                assert("false"@ =~= seq!['f', 'a', 'l', 's', 'e']);
                assert(crate::table::totals_enabled(custom) == total);
                lemma_disk_keys_unique();
            }
            let tab = Table::new(columns, data, custom);
            proof {
                assert(tab.data@.len() == sv.len() + (if total {
                    1int
                } else {
                    0int
                }));
                assert(forall|t: int|
                    0 <= t < main_rows.len() ==> #[trigger] tab.data@[t] == main_rows[t]);
                if sorted_with is None {
                    let idp = Seq::new(sv.len(), |t: int| t);
                    assert(is_permutation(idp, sv.len() as int));
                    assert(forall|t: int|
                        0 <= t < sv.len() ==> row_matches_vol(
                            #[trigger] tab.data@[t],
                            sv[idp[t]],
                            base,
                            block,
                        ));
                }
                assert(disk_table_ok(
                    tab,
                    volumes@,
                    all,
                    sort@,
                    exclude@,
                    total,
                    base,
                    block,
                ));
            }
            Ok(tab)
        },
        _ => vstd::pervasive::unreached(),
    }
}

/// One metric column as it stands in a finished table: its identity and
/// display attributes, and its width computed over the rows.
pub open spec fn metric_column_is(
    c: Column,
    key: Seq<char>,
    title: Seq<char>,
    right_align: bool,
    color: Color,
    bold: bool,
    rows: Seq<Row>,
) -> bool {
    &&& c.key@ == key
    &&& c.title@ == title
    &&& !c.hidden
    &&& c.right_align == right_align
    &&& c.color == Some(color)
    &&& c.style == (TextStyle { bold, underline: false })
    &&& c.render is None
    &&& c.width as nat == crate::table::nat_max(
        title.len(),
        crate::table::rows_key_max(rows, key),
    )
}

/// Builds one column with the given attributes and no width yet.
fn make_column(
    key: &str,
    title: &str,
    right_align: bool,
    color: Color,
    bold: bool,
) -> (r: Column)
    ensures
        r.key@ == key@,
        r.title@ == title@,
        r.width == 0,
        !r.hidden,
        r.right_align == right_align,
        r.color == Some(color),
        r.style == (TextStyle { bold, underline: false }),
        r.render is None,
{
    Column {
        key: key.to_owned(),
        title: title.to_owned(),
        width: 0,
        hidden: false,
        right_align,
        color: Some(color),
        style: TextStyle { bold, underline: false },
        render: None,
    }
}

/// The row of the processor summary: a label and the given usage, core and
/// thread texts.
pub open spec fn cpu_row_field(
    usage: Seq<char>,
    core: Seq<char>,
    thread: Seq<char>,
    k: Seq<char>,
) -> Option<Seq<char>> {
    if k == seq!['t', 'i', 't', 'l', 'e'] {
        Some(seq!['C', 'P', 'U', ':'])
    } else if k == seq!['c', 'p', 'u', '_', 'u', 's', 'a', 'g', 'e'] {
        Some(usage)
    } else if k == seq!['c', 'p', 'u', '_', 'c', 'o', 'r', 'e'] {
        Some(core)
    } else if k == seq!['c', 'p', 'u', '_', 't', 'h', 'r', 'e', 'a', 'd'] {
        Some(thread)
    } else {
        None
    }
}

/// Builds the one-row processor summary: label, usage share, core count
/// and thread count, the numeric cells right-aligned.
pub fn cpu_summary_table(cpu_usage: String, cpu_core: String, cpu_thread: String) -> (t: Table)
    ensures
        t.wf(),
        t.columns@.len() == 4,
        t.data@.len() == 1,
        forall|k: Seq<char>|
            #[trigger] t.data@[0].value_of(k) == cpu_row_field(
                cpu_usage@,
                cpu_core@,
                cpu_thread@,
                k,
            ),
        !totals_enabled(t.custom),
        metric_column_is(t.columns@[0], "title"@, ""@, false, Color::Red, true, t.data@),
        metric_column_is(t.columns@[1], "cpu_usage"@, "Use%"@, true, Color::Green, false, t.data@),
        metric_column_is(t.columns@[2], "cpu_core"@, "Core"@, true, Color::Yellow, false, t.data@),
        metric_column_is(
            t.columns@[3],
            "cpu_thread"@,
            "Thread"@,
            true,
            Color::Blue,
            false,
            t.data@,
        ),
{
    proof {
        reveal_strlit("");
        reveal_strlit("title");
        reveal_strlit("cpu_usage");
        reveal_strlit("cpu_core");
        reveal_strlit("cpu_thread");
        reveal_strlit("CPU:");
        assert("title"@ =~= seq!['t', 'i', 't', 'l', 'e']);
        assert("cpu_usage"@ =~= seq!['c', 'p', 'u', '_', 'u', 's', 'a', 'g', 'e']);
        assert("cpu_core"@ =~= seq!['c', 'p', 'u', '_', 'c', 'o', 'r', 'e']);
        assert("cpu_thread"@ =~= seq!['c', 'p', 'u', '_', 't', 'h', 'r', 'e', 'a', 'd']);
        assert("CPU:"@ =~= seq!['C', 'P', 'U', ':']);
        reveal_strlit("total");
        assert("total"@ =~= seq!['t', 'o', 't', 'a', 'l']);
    }
    let mut columns: Vec<Column> = Vec::new();
    columns.push(make_column("title", "", false, Color::Red, true));
    columns.push(make_column("cpu_usage", "Use%", true, Color::Green, false));
    columns.push(make_column("cpu_core", "Core", true, Color::Yellow, false));
    columns.push(make_column("cpu_thread", "Thread", true, Color::Blue, false));
    let mut row = Row::new();
    row.set(String::from_str("title"), String::from_str("CPU:"));
    row.set(String::from_str("cpu_usage"), cpu_usage);
    row.set(String::from_str("cpu_core"), cpu_core);
    row.set(String::from_str("cpu_thread"), cpu_thread);
    let mut data: Vec<Row> = Vec::new();
    data.push(row);
    Table::new(columns, data, Row::new())
}

/// One processor's detail texts, as the collaborator reports them.
#[derive(Debug)]
pub struct CpuDetail {
    pub name: String,
    pub cpu_usage: String,
    pub frequency: String,
    pub vendor_id: String,
    pub brand: String,
}

/// The row of one processor's details.
pub open spec fn cpu_detail_field(d: CpuDetail, k: Seq<char>) -> Option<Seq<char>> {
    if k == seq!['n', 'a', 'm', 'e'] {
        Some(d.name@)
    } else if k == seq!['c', 'p', 'u', '_', 'u', 's', 'a', 'g', 'e'] {
        Some(d.cpu_usage@)
    } else if k == seq!['f', 'r', 'e', 'q', 'u', 'e', 'n', 'c', 'y'] {
        Some(d.frequency@)
    } else if k == seq!['v', 'e', 'n', 'd', 'o', 'r', '_', 'i', 'd'] {
        Some(d.vendor_id@)
    } else if k == seq!['b', 'r', 'a', 'n', 'd'] {
        Some(d.brand@)
    } else {
        None
    }
}

/// Builds the per-processor details table: one row per processor, in the
/// reported order.
pub fn cpu_details_table(cpus: Vec<CpuDetail>) -> (t: Table)
    ensures
        t.wf(),
        t.columns@.len() == 5,
        t.data@.len() == cpus@.len(),
        forall|i: int, k: Seq<char>|
            0 <= i < cpus@.len() ==> #[trigger] t.data@[i].value_of(k) == cpu_detail_field(
                cpus@[i],
                k,
            ),
        !totals_enabled(t.custom),
        metric_column_is(t.columns@[0], "name"@, "Name"@, false, Color::Red, false, t.data@),
        metric_column_is(t.columns@[1], "cpu_usage"@, "Use%"@, true, Color::Green, false, t.data@),
        metric_column_is(
            t.columns@[2],
            "frequency"@,
            "Frequency"@,
            true,
            Color::Yellow,
            false,
            t.data@,
        ),
        metric_column_is(
            t.columns@[3],
            "vendor_id"@,
            "VendorID"@,
            false,
            Color::Blue,
            false,
            t.data@,
        ),
        metric_column_is(t.columns@[4], "brand"@, "Brand"@, false, Color::Magenta, false, t.data@),
{
    proof {
        reveal_strlit("name");
        reveal_strlit("cpu_usage");
        reveal_strlit("frequency");
        reveal_strlit("vendor_id");
        reveal_strlit("brand");
        assert("name"@ =~= seq!['n', 'a', 'm', 'e']);
        assert("cpu_usage"@ =~= seq!['c', 'p', 'u', '_', 'u', 's', 'a', 'g', 'e']);
        assert("frequency"@ =~= seq!['f', 'r', 'e', 'q', 'u', 'e', 'n', 'c', 'y']);
        assert("vendor_id"@ =~= seq!['v', 'e', 'n', 'd', 'o', 'r', '_', 'i', 'd']);
        assert("brand"@ =~= seq!['b', 'r', 'a', 'n', 'd']);
        reveal_strlit("total");
        assert("total"@ =~= seq!['t', 'o', 't', 'a', 'l']);
    }
    let mut columns: Vec<Column> = Vec::new();
    columns.push(make_column("name", "Name", false, Color::Red, false));
    columns.push(make_column("cpu_usage", "Use%", true, Color::Green, false));
    columns.push(make_column("frequency", "Frequency", true, Color::Yellow, false));
    columns.push(make_column("vendor_id", "VendorID", false, Color::Blue, false));
    columns.push(make_column("brand", "Brand", false, Color::Magenta, false));
    let n = cpus.len();
    let mut data: Vec<Row> = Vec::new();
    let mut i: usize = 0;
    let ghost cpus0 = cpus@;
    let mut rest = cpus;
    while i < n
        invariant
            i <= n,
            n == cpus0.len(),
            rest@.len() == n - i,
            forall|j: int| 0 <= j < n - i ==> rest@[j] == cpus0[i + j],
            data@.len() == i,
            forall|j: int, k: Seq<char>|
                0 <= j < i ==> #[trigger] data@[j].value_of(k) == cpu_detail_field(cpus0[j], k),
        decreases n - i,
    {
        let d = rest.remove(0);
        let ghost gd = d;
        proof {
            assert(d == cpus0[i as int]);
        }
        let mut row = Row::new();
        row.set(String::from_str("name"), d.name);
        row.set(String::from_str("cpu_usage"), d.cpu_usage);
        row.set(String::from_str("frequency"), d.frequency);
        row.set(String::from_str("vendor_id"), d.vendor_id);
        row.set(String::from_str("brand"), d.brand);
        proof {
            reveal_strlit("name");
            reveal_strlit("cpu_usage");
            reveal_strlit("frequency");
            reveal_strlit("vendor_id");
            reveal_strlit("brand");
            assert("name"@ =~= seq!['n', 'a', 'm', 'e']);
            assert("cpu_usage"@ =~= seq!['c', 'p', 'u', '_', 'u', 's', 'a', 'g', 'e']);
            assert("frequency"@ =~= seq!['f', 'r', 'e', 'q', 'u', 'e', 'n', 'c', 'y']);
            assert("vendor_id"@ =~= seq!['v', 'e', 'n', 'd', 'o', 'r', '_', 'i', 'd']);
            assert("brand"@ =~= seq!['b', 'r', 'a', 'n', 'd']);
            assert(forall|k: Seq<char>|
                #[trigger] row.value_of(k) == cpu_detail_field(gd, k));
        }
        data.push(row);
        i = i + 1;
    }
    Table::new(columns, data, Row::new())
}

/// The memory row: label, the three counters and the available count
/// humanised, and the share of used in total.
pub open spec fn mem_row_field(
    total: u64,
    used: u64,
    free: u64,
    avail: u64,
    k: Seq<char>,
) -> Option<Seq<char>> {
    if k == seq!['t', 'i', 't', 'l', 'e'] {
        Some(seq!['M', 'e', 'm', 'o', 'r', 'y', ':'])
    } else if k == seq!['t', 'o', 't', 'a', 'l'] {
        Some(pretty_text(total as nat, BaseSize::Size1024, BlockSize::Auto))
    } else if k == seq!['u', 's', 'e', 'd'] {
        Some(pretty_text(used as nat, BaseSize::Size1024, BlockSize::Auto))
    } else if k == seq!['f', 'r', 'e', 'e'] {
        Some(pretty_text(free as nat, BaseSize::Size1024, BlockSize::Auto))
    } else if k == seq!['a', 'v', 'a', 'i', 'l', 'a', 'b', 'l', 'e'] {
        Some(pretty_text(avail as nat, BaseSize::Size1024, BlockSize::Auto))
    } else if k == seq!['u', 's', 'e', 'd', '_', 'p', 'e', 'r', 'c', 'e', 'n', 't'] {
        Some(percent_text(used as nat, total as nat))
    } else {
        None
    }
}

/// The swap row: as the memory row, but with no available figure.
pub open spec fn swap_row_field(total: u64, used: u64, free: u64, k: Seq<char>) -> Option<
    Seq<char>,
> {
    if k == seq!['t', 'i', 't', 'l', 'e'] {
        Some(seq!['S', 'w', 'a', 'p', ':'])
    } else if k == seq!['t', 'o', 't', 'a', 'l'] {
        Some(pretty_text(total as nat, BaseSize::Size1024, BlockSize::Auto))
    } else if k == seq!['u', 's', 'e', 'd'] {
        Some(pretty_text(used as nat, BaseSize::Size1024, BlockSize::Auto))
    } else if k == seq!['f', 'r', 'e', 'e'] {
        Some(pretty_text(free as nat, BaseSize::Size1024, BlockSize::Auto))
    } else if k == seq!['a', 'v', 'a', 'i', 'l', 'a', 'b', 'l', 'e'] {
        Some(Seq::empty())
    } else if k == seq!['u', 's', 'e', 'd', '_', 'p', 'e', 'r', 'c', 'e', 'n', 't'] {
        Some(percent_text(used as nat, total as nat))
    } else {
        None
    }
}

/// Builds the memory and swap table: one row of memory counters, one of
/// swap counters, sizes humanised in the binary base and shares recomputed
/// from the raw counters.
pub fn memory_table(
    m_total: u64,
    m_used: u64,
    m_free: u64,
    m_avail: u64,
    s_total: u64,
    s_used: u64,
    s_free: u64,
) -> (t: Table)
    ensures
        t.wf(),
        t.columns@.len() == 6,
        t.data@.len() == 2,
        forall|k: Seq<char>|
            #[trigger] t.data@[0].value_of(k) == mem_row_field(m_total, m_used, m_free, m_avail, k),
        forall|k: Seq<char>|
            #[trigger] t.data@[1].value_of(k) == swap_row_field(s_total, s_used, s_free, k),
        !totals_enabled(t.custom),
        metric_column_is(t.columns@[0], "title"@, ""@, false, Color::Red, true, t.data@),
        metric_column_is(t.columns@[1], "total"@, "Total"@, true, Color::Green, false, t.data@),
        metric_column_is(t.columns@[2], "used"@, "Used"@, true, Color::Yellow, false, t.data@),
        metric_column_is(t.columns@[3], "free"@, "Free"@, true, Color::Blue, false, t.data@),
        metric_column_is(
            t.columns@[4],
            "available"@,
            "Avail"@,
            true,
            Color::Magenta,
            false,
            t.data@,
        ),
        metric_column_is(
            t.columns@[5],
            "used_percent"@,
            "Use%"@,
            true,
            Color::Cyan,
            false,
            t.data@,
        ),
{
    proof {
        reveal_strlit("");
        reveal_strlit("title");
        reveal_strlit("total");
        reveal_strlit("used");
        reveal_strlit("free");
        reveal_strlit("available");
        reveal_strlit("used_percent");
        reveal_strlit("Memory:");
        reveal_strlit("Swap:");
        assert("title"@ =~= seq!['t', 'i', 't', 'l', 'e']);
        assert("total"@ =~= seq!['t', 'o', 't', 'a', 'l']);
        assert("used"@ =~= seq!['u', 's', 'e', 'd']);
        assert("free"@ =~= seq!['f', 'r', 'e', 'e']);
        assert("available"@ =~= seq!['a', 'v', 'a', 'i', 'l', 'a', 'b', 'l', 'e']);
        assert("used_percent"@ =~= seq!['u', 's', 'e', 'd', '_', 'p', 'e', 'r', 'c', 'e', 'n', 't']);
        assert("Memory:"@ =~= seq!['M', 'e', 'm', 'o', 'r', 'y', ':']);
        assert("Swap:"@ =~= seq!['S', 'w', 'a', 'p', ':']);
        assert(""@ =~= Seq::<char>::empty());
    }
    let mut columns: Vec<Column> = Vec::new();
    columns.push(make_column("title", "", false, Color::Red, true));
    columns.push(make_column("total", "Total", true, Color::Green, false));
    columns.push(make_column("used", "Used", true, Color::Yellow, false));
    columns.push(make_column("free", "Free", true, Color::Blue, false));
    columns.push(make_column("available", "Avail", true, Color::Magenta, false));
    columns.push(make_column("used_percent", "Use%", true, Color::Cyan, false));
    let mut mem = Row::new();
    mem.set(String::from_str("title"), String::from_str("Memory:"));
    mem.set(String::from_str("total"), m_total.pretty_size());
    mem.set(String::from_str("used"), m_used.pretty_size());
    mem.set(String::from_str("free"), m_free.pretty_size());
    mem.set(String::from_str("available"), m_avail.pretty_size());
    mem.set(String::from_str("used_percent"), format_percent(m_used, m_total));
    let mut swap = Row::new();
    swap.set(String::from_str("title"), String::from_str("Swap:"));
    swap.set(String::from_str("total"), s_total.pretty_size());
    swap.set(String::from_str("used"), s_used.pretty_size());
    swap.set(String::from_str("free"), s_free.pretty_size());
    swap.set(String::from_str("available"), String::new());
    swap.set(String::from_str("used_percent"), format_percent(s_used, s_total));
    let mut data: Vec<Row> = Vec::new();
    data.push(mem);
    data.push(swap);
    Table::new(columns, data, Row::new())
}

} // verus!
