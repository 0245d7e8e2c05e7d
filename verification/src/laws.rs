use crate::common::lemma_decimal_digits_value;
use crate::sys_info::{
    disk_key, disk_table_ok, num_sort_val, raw_key, sort_kind_of, stripped_key, surviving,
    survives, vol_field, DiskVolume, SortKind,
};
use crate::table::{
    column_resized, nat_max, rows_key_max, spec_format, spec_render, Column, CtxView, Row,
    StyledView, Table,
};
use crate::text::parsed_u64;
use vstd::prelude::*;

verus! {

/// A column that enters the width pass with no width of its own leaves it
/// with exactly the widest of its title and the rows' values under its
/// key.
pub proof fn lemma_visible_width(before: Column, after: Column, rows: Seq<Row>)
    requires
        before.width == 0,
        column_resized(before, after, rows),
    ensures
        after.width as nat == nat_max(before.title@.len(), rows_key_max(rows, before.key@)),
{
}

/// The width pass is idempotent: a second full pass over the same rows
/// grows no width any further.
pub proof fn lemma_width_pass_idempotent(before: Column, mid: Column, after: Column, rows: Seq<Row>)
    requires
        column_resized(before, mid, rows),
        column_resized(mid, after, rows),
    ensures
        after.width == mid.width,
{
}

/// A hidden column renders every cell, body or header, as empty text,
/// whatever its width.
pub proof fn lemma_hidden_renders_empty(
    col: Column,
    v: StyledView,
    ctx: Option<CtxView>,
    colorize: bool,
)
    requires
        col.hidden,
    ensures
        spec_format(col, v, ctx, colorize) == Seq::<char>::empty(),
{
}

/// An absent exclusion filter keeps every volume, in order.
pub proof fn lemma_empty_filter_keeps_all(
    vols: Seq<DiskVolume>,
    base: crate::common::BaseSize,
    block: crate::common::BlockSize,
)
    ensures
        surviving(vols, None, base, block) == vols,
    decreases vols.len(),
{
    if vols.len() > 0 {
        lemma_empty_filter_keeps_all(vols.drop_last(), base, block);
        assert(surviving(vols, None, base, block) =~= vols);
    } else {
        assert(surviving(vols, None, base, block) =~= vols);
    }
}

/// A filter on the filesystem-type column drops a volume exactly when its
/// filesystem type is one of the listed values.
pub proof fn lemma_type_filter_matches_fs(
    v: DiskVolume,
    vals: Seq<Seq<char>>,
    base: crate::common::BaseSize,
    block: crate::common::BlockSize,
)
    ensures
        survives(v, Some((disk_key(1), vals)), base, block) == !vals.contains(v.file_system@),
{
}

/// The exclusion filter removes exactly the matching volumes: every
/// survivor fails to match, and every volume that fails to match survives.
pub proof fn lemma_exclusion_exact(
    vols: Seq<DiskVolume>,
    key: Seq<char>,
    vals: Seq<Seq<char>>,
    base: crate::common::BaseSize,
    block: crate::common::BlockSize,
)
    ensures
        forall|j: int|
            0 <= j < surviving(vols, Some((key, vals)), base, block).len() ==> survives(
                #[trigger] surviving(vols, Some((key, vals)), base, block)[j],
                Some((key, vals)),
                base,
                block,
            ),
        forall|i: int|
            0 <= i < vols.len() && survives(#[trigger] vols[i], Some((key, vals)), base, block)
                ==> surviving(vols, Some((key, vals)), base, block).contains(vols[i]),
    decreases vols.len(),
{
    let filt = Some((key, vals));
    if vols.len() > 0 {
        lemma_exclusion_exact(vols.drop_last(), key, vals, base, block);
        let rest = surviving(vols.drop_last(), filt, base, block);
        assert(forall|i: int| 0 <= i < vols.len() - 1 ==> vols.drop_last()[i] == vols[i]);
        assert forall|i: int|
            0 <= i < vols.len() && survives(#[trigger] vols[i], filt, base, block) implies surviving(
            vols,
            filt,
            base,
            block,
        ).contains(vols[i]) by {
            let sv = surviving(vols, filt, base, block);
            if i < vols.len() - 1 {
                let j = choose|j: int| 0 <= j < rest.len() && rest[j] == vols[i];
                if survives(vols.last(), filt, base, block) {
                    assert(sv == rest.push(vols.last()));
                    assert(sv[j] == vols[i]);
                } else {
                    assert(sv[j] == vols[i]);
                }
            } else {
                assert(sv == rest.push(vols.last()));
                assert(sv[sv.len() - 1] == vols[i]);
            }
        }
    }
}

/// The raw numeric stash a row sorts by under a byte-size column is the
/// volume's own byte count, not anything about the humanised text.
pub proof fn lemma_row_numeric_is_byte_count(
    r: Row,
    v: DiskVolume,
    base: crate::common::BaseSize,
    block: crate::common::BlockSize,
)
    requires
        forall|k: Seq<char>| #[trigger] r.value_of(k) == vol_field(v, base, block, k),
    ensures
        num_sort_val(r, raw_key(0)) == v.total_space,
{
    lemma_decimal_digits_value(v.total_space as nat);
    assert(raw_key(0).len() == 5);
    assert(disk_key(0).len() == 4);
    assert(disk_key(1).len() == 11);
    assert(disk_key(2).len() == 4);
    assert(disk_key(3).len() == 11);
    assert(vol_field(v, base, block, raw_key(0)) == Some(
        crate::common::decimal_digits(v.total_space as nat),
    ));
    assert(r.value_of(raw_key(0)) == Some(crate::common::decimal_digits(v.total_space as nat)));
    assert(parsed_u64(crate::common::decimal_digits(v.total_space as nat)) == Some(
        v.total_space,
    ));
}

/// The sort field naming the total-size column resolves to the raw total
/// stash and compares numerically.
pub proof fn lemma_total_sort_resolution()
    ensures
        crate::sys_info::disk_sort_key(seq!['T', 'o', 't', 'a', 'l']) == Some(raw_key(0)),
        sort_kind_of(raw_key(0)) == SortKind::Numeric,
{
    let title = seq!['T', 'o', 't', 'a', 'l'];
    assert(crate::sys_info::disk_title_to_key(title) == Some(disk_key(3)));
    assert(disk_key(3).skip(5) =~= seq!['_', 's', 'p', 'a', 'c', 'e']);
    assert(disk_key(3).take(5) =~= raw_key(0));
    assert(stripped_key(disk_key(3)) == raw_key(0));
}

/// Sorting by the total-size column title orders the listing's rows by the
/// underlying numeric byte count.
pub proof fn lemma_sorted_by_byte_count(
    tab: Table,
    vols: Seq<DiskVolume>,
    all: bool,
    exclude: Seq<char>,
    total: bool,
    base: crate::common::BaseSize,
    block: crate::common::BlockSize,
)
    requires
        disk_table_ok(tab, vols, all, seq!['T', 'o', 't', 'a', 'l'], exclude, total, base, block),
    ensures
        forall|a: int, b: int|
            0 <= a < b < (if total {
                tab.data@.len() - 1
            } else {
                tab.data@.len() as int
            }) ==> num_sort_val(#[trigger] tab.data@[a], raw_key(0)) <= num_sort_val(
                #[trigger] tab.data@[b],
                raw_key(0),
            ),
{
    lemma_total_sort_resolution();
    let filt = crate::sys_info::disk_filter(exclude);
    let sv = surviving(vols, filt, base, block);
    assert forall|a: int, b: int|
        0 <= a < b < (if total {
            tab.data@.len() - 1
        } else {
            tab.data@.len() as int
        }) implies num_sort_val(#[trigger] tab.data@[a], raw_key(0)) <= num_sort_val(
        #[trigger] tab.data@[b],
        raw_key(0),
    ) by {
        assert(0 <= a < b < sv.len());
        assert(crate::sys_info::row_le(
            sort_kind_of(raw_key(0)),
            raw_key(0),
            tab.data@[a],
            tab.data@[b],
        ));
    }
}

/// A totals row's fields are a function of the volumes, the filter and the
/// size format alone: two listings over the same volumes that differ only
/// in their sort field carry identical totals rows.
pub proof fn lemma_totals_independent_of_sort(
    t1: Table,
    t2: Table,
    vols: Seq<DiskVolume>,
    all: bool,
    sort1: Seq<char>,
    sort2: Seq<char>,
    exclude: Seq<char>,
    base: crate::common::BaseSize,
    block: crate::common::BlockSize,
)
    requires
        disk_table_ok(t1, vols, all, sort1, exclude, true, base, block),
        disk_table_ok(t2, vols, all, sort2, exclude, true, base, block),
    ensures
        forall|k: Seq<char>|
            #[trigger] t1.data@.last().value_of(k) == t2.data@.last().value_of(k),
{
}

/// Rendering reads the table and nothing else: any two renderings of an
/// unchanged table are the same text, since rendering returns exactly the
/// table's specified text block.
pub proof fn lemma_render_idempotent(t: Table, colorize: bool, r1: Seq<char>, r2: Seq<char>)
    requires
        r1 == spec_render(t, colorize),
        r2 == spec_render(t, colorize),
    ensures
        r1 == r2,
{
}

} // verus!
