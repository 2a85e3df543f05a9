//! Presentation layer: turns raw [`crate::info`] data into display strings.
pub mod bytes;
pub mod units;

use vstd::prelude::*;
use vstd::string::*;

use crate::field::Field;
use crate::info::{DiskInfo, MemoryInfo, SystemInfo};
use crate::text::{
    decimal, lemma_max_width_bound, lines_text, max_width, no_escape, push_decimal, push_spaces, spaces,
    str_equals,
};
use crate::theme::{lemma_strip_plain_prefix, lemma_strip_styled, strip_ansi, styled, Theme};
use bytes::{bytes_text, humanize_bytes};
use units::{humanize_uptime, uptime_text};

verus! {

/// A display row as plain text: `(label, value)`.
pub type RowText = (Seq<char>, Seq<char>);

/// The text of rows of strings.
pub open spec fn rows_text(rows: Seq<(String, String)>) -> Seq<RowText> {
    rows.map_values(|r: (String, String)| (r.0@, r.1@))
}

/// The OS value: name and version separated by a space, or the name alone;
/// absent without a name.
pub open spec fn os_text(info: SystemInfo) -> Option<Seq<char>> {
    match (info.os_name, info.os_version) {
        (Some(name), Some(version)) => Some(name@ + seq![' '] + version@),
        (Some(name), None) => Some(name@),
        _ => None,
    }
}

/// The CPU value: `<model> (<n> cores)`, or `<n> cores` without a model.
pub open spec fn cpu_text(info: SystemInfo) -> Seq<char> {
    match info.cpu_model {
        Some(model) => model@ + seq![' ', '('] + decimal(info.cpu_count as nat) + " cores)"@,
        None => decimal(info.cpu_count as nat) + " cores"@,
    }
}

/// The share of memory in use, in whole percent (truncated to 64 bits as the
/// computation is done in 128); 0 when the total is 0.
pub open spec fn mem_percent(mem: MemoryInfo) -> nat {
    if mem.total > 0 {
        (((mem.used as nat) * 100) / (mem.total as nat)) % 0x10000000000000000
    } else {
        0
    }
}

/// `<used> / <total>`, both as byte sizes.
pub open spec fn usage_text(used: nat, total: nat) -> Seq<char> {
    bytes_text(used) + seq![' ', '/', ' '] + bytes_text(total)
}

/// The memory value: `<used> / <total> (<percent>%)`.
pub open spec fn mem_text(mem: MemoryInfo) -> Seq<char> {
    usage_text(mem.used as nat, mem.total as nat) + seq![' ', '('] + decimal(mem_percent(mem)) + seq!['%', ')']
}

/// The swap value: `<used> / <total>`.
pub open spec fn swap_text(mem: MemoryInfo) -> Seq<char> {
    usage_text(mem.swap_used as nat, mem.swap_total as nat)
}

/// The space in use on a disk: total minus available, saturating at 0.
pub open spec fn disk_used(disk: DiskInfo) -> nat {
    if disk.total >= disk.available { (disk.total - disk.available) as nat } else { 0 }
}

/// The disk value: `<used> / <total>`.
pub open spec fn disk_text(disk: DiskInfo) -> Seq<char> {
    usage_text(disk_used(disk), disk.total as nat)
}

/// The row label of a disk: `Disk (<mount point>)`.
pub open spec fn disk_label(disk: DiskInfo) -> Seq<char> {
    "Disk ("@ + disk.mount_point@ + seq![')']
}

/// Whether a disk is shown: every disk when `show_all`, else only the root mount.
pub open spec fn disk_shown(disk: DiskInfo, show_all: bool) -> bool {
    show_all || disk.mount_point@ == seq!['/']
}

/// The disks shown, in their original order.
pub open spec fn selected_disks(disks: Seq<DiskInfo>, show_all: bool) -> Seq<DiskInfo>
    decreases disks.len(),
{
    if disks.len() == 0 {
        Seq::empty()
    } else {
        let rest = selected_disks(disks.drop_last(), show_all);
        if disk_shown(disks.last(), show_all) { rest.push(disks.last()) } else { rest }
    }
}

/// One row per disk.
pub open spec fn disk_rows(disks: Seq<DiskInfo>) -> Seq<RowText> {
    disks.map_values(|d: DiskInfo| (disk_label(d), disk_text(d)))
}

/// The rows one field contributes: none when its data is absent (host, OS,
/// kernel, shell, or swap with a zero total), one per selected disk for
/// `Disks`, else exactly one.
pub open spec fn field_rows(info: SystemInfo, field: Field, show_all: bool) -> Seq<RowText> {
    match field {
        Field::Host => match info.host_name {
            Some(h) => seq![("Host"@, h@)],
            None => Seq::empty(),
        },
        Field::Os => match os_text(info) {
            Some(os) => seq![("OS"@, os)],
            None => Seq::empty(),
        },
        Field::Kernel => match info.kernel_version {
            Some(k) => seq![("Kernel"@, k@)],
            None => Seq::empty(),
        },
        Field::Shell => match info.shell {
            Some(s) => seq![("Shell"@, s@)],
            None => Seq::empty(),
        },
        Field::Uptime => seq![("Uptime"@, uptime_text(info.uptime_secs as nat))],
        Field::Cpu => seq![("CPU"@, cpu_text(info))],
        Field::Memory => seq![("Memory"@, mem_text(info.memory))],
        Field::Swap => if info.memory.swap_total > 0 {
            seq![("Swap"@, swap_text(info.memory))]
        } else {
            Seq::empty()
        },
        Field::Disks => disk_rows(selected_disks(info.disks@, show_all)),
    }
}

/// The rows of the requested fields, concatenated in the order requested.
pub open spec fn rows_for(info: SystemInfo, fields: Seq<Field>, show_all: bool) -> Seq<RowText>
    decreases fields.len(),
{
    if fields.len() == 0 {
        Seq::empty()
    } else {
        rows_for(info, fields.drop_last(), show_all) + field_rows(info, fields.last(), show_all)
    }
}

/// Append `" / "` and the two byte sizes.
fn usage_value(used: u64, total: u64) -> (text: String)
    ensures
        text@ == usage_text(used as nat, total as nat),
{
    let mut out = humanize_bytes(used);
    out.append(" / ");
    let t = humanize_bytes(total);
    out.append(t.as_str());
    proof {
        reveal_strlit(" / ");
        assert(" / "@ =~= seq![' ', '/', ' ']);
    }
    out
}

/// The OS value, if the OS name is known.
pub fn os_value(info: &SystemInfo) -> (os: Option<String>)
    ensures
        os matches Some(s) ==> os_text(*info) == Some(s@),
        os is None ==> os_text(*info) is None,
{
    match (&info.os_name, &info.os_version) {
        (Some(name), Some(version)) => {
            let mut s = name.clone();
            s.append(" ");
            s.append(version.as_str());
            proof {
                reveal_strlit(" ");
            }
            Some(s)
        },
        (Some(name), None) => Some(name.clone()),
        _ => None,
    }
}

/// The CPU value: model and core count.
pub fn cpu_value(info: &SystemInfo) -> (cpu: String)
    ensures
        cpu@ == cpu_text(*info),
{
    proof {
        reveal_strlit(" (");
        assert(" ("@ =~= seq![' ', '(']);
    }
    match &info.cpu_model {
        Some(model) => {
            let mut s = model.clone();
            s.append(" (");
            push_decimal(&mut s, info.cpu_count as u64);
            s.append(" cores)");
            s
        },
        None => {
            let mut s = String::new();
            push_decimal(&mut s, info.cpu_count as u64);
            s.append(" cores");
            s
        },
    }
}

/// The memory value: used and total sizes with the share in use.
pub fn mem_value(mem: &MemoryInfo) -> (text: String)
    ensures
        text@ == mem_text(*mem),
{
    let percent: u64 = if mem.total > 0 {
        let p: u128 = (mem.used as u128) * 100 / (mem.total as u128);
        assert((p as u64) == p % 0x10000000000000000u128) by (bit_vector);
        p as u64
    } else {
        0
    };
    let mut out = usage_value(mem.used, mem.total);
    out.append(" (");
    push_decimal(&mut out, percent);
    out.append("%)");
    proof {
        reveal_strlit(" (");
        reveal_strlit("%)");
        assert(" ("@ =~= seq![' ', '(']);
        assert("%)"@ =~= seq!['%', ')']);
    }
    out
}

/// The swap value: used and total sizes.
pub fn swap_value(mem: &MemoryInfo) -> (text: String)
    ensures
        text@ == swap_text(*mem),
{
    usage_value(mem.swap_used, mem.swap_total)
}

/// The disk value: used (total minus available) and total sizes.
pub fn disk_value(disk: &DiskInfo) -> (text: String)
    ensures
        text@ == disk_text(*disk),
{
    let used = disk.total.saturating_sub(disk.available);
    usage_value(used, disk.total)
}

/// Select which disks to display: the root mount only, or all of them.
pub fn select_disks(disks: &[DiskInfo], show_all: bool) -> (selected: Vec<&DiskInfo>)
    ensures
        selected@.map_values(|d: &DiskInfo| *d) == selected_disks(disks@, show_all),
{
    let mut selected: Vec<&DiskInfo> = Vec::new();
    let mut i: usize = 0;
    proof {
        reveal_strlit("/");
        assert("/"@ =~= seq!['/']);
    }
    while i < disks.len()
        invariant
            i <= disks@.len(),
            selected@.map_values(|d: &DiskInfo| *d) == selected_disks(disks@.subrange(0, i as int), show_all),
        decreases disks@.len() - i,
    {
        let disk = &disks[i];
        assert(disks@.subrange(0, i + 1).drop_last() =~= disks@.subrange(0, i as int));
        let ghost old_sel = selected@;
        proof {
            reveal_strlit("/");
            assert("/"@ =~= seq!['/']);
        }
        let shown = show_all || str_equals(disk.mount_point.as_str(), "/");
        assert(shown == disk_shown(*disk, show_all));
        assert(disks@.subrange(0, i + 1).last() == *disk);
        if shown {
            selected.push(disk);
            assert(selected@.map_values(|d: &DiskInfo| *d) =~= old_sel.map_values(|d: &DiskInfo| *d).push(*disk));
        }
        i = i + 1;
        assert(selected@.map_values(|d: &DiskInfo| *d) =~= selected_disks(disks@.subrange(0, i as int), show_all));
    }
    assert(disks@.subrange(0, disks@.len() as int) =~= disks@);
    selected
}

fn label(text: &str) -> (s: String)
    ensures
        s@ == text@,
{
    String::from_str(text)
}

/// Build the `(label, value)` rows for the requested fields, in order.
///
/// Optional fields with no data (e.g. an unknown hostname, or swap when there
/// is none) are skipped rather than shown as "unknown". Disks expand to one row
/// per selected mount: just the root filesystem unless `show_all_disks` is set.
pub fn build_rows(info: &SystemInfo, fields: &[Field], show_all_disks: bool) -> (rows: Vec<(String, String)>)
    ensures
        rows_text(rows@) == rows_for(*info, fields@, show_all_disks),
{
    let mut rows: Vec<(String, String)> = Vec::new();
    let mut i: usize = 0;
    while i < fields.len()
        invariant
            i <= fields@.len(),
            rows_text(rows@) == rows_for(*info, fields@.subrange(0, i as int), show_all_disks),
        decreases fields@.len() - i,
    {
        let field = fields[i];
        let ghost before = rows_text(rows@);
        assert(fields@.subrange(0, i + 1).drop_last() =~= fields@.subrange(0, i as int));
        match field {
            Field::Host => {
                if let Some(host) = &info.host_name {
                    rows.push((label("Host"), host.clone()));
                }
            },
            Field::Os => {
                if let Some(os) = os_value(info) {
                    rows.push((label("OS"), os));
                }
            },
            Field::Kernel => {
                if let Some(kernel) = &info.kernel_version {
                    rows.push((label("Kernel"), kernel.clone()));
                }
            },
            Field::Shell => {
                if let Some(shell) = &info.shell {
                    rows.push((label("Shell"), shell.clone()));
                }
            },
            Field::Uptime => rows.push((label("Uptime"), humanize_uptime(info.uptime_secs))),
            Field::Cpu => rows.push((label("CPU"), cpu_value(info))),
            Field::Memory => rows.push((label("Memory"), mem_value(&info.memory))),
            Field::Swap => {
                if info.memory.swap_total > 0 {
                    rows.push((label("Swap"), swap_value(&info.memory)));
                }
            },
            Field::Disks => {
                let selected = select_disks(info.disks.as_slice(), show_all_disks);
                let ghost sel = selected_disks(info.disks@, show_all_disks);
                let mut j: usize = 0;
                while j < selected.len()
                    invariant
                        j <= selected@.len(),
                        selected@.map_values(|d: &DiskInfo| *d) == sel,
                        rows_text(rows@) == before + disk_rows(sel.subrange(0, j as int)),
                    decreases selected@.len() - j,
                {
                    let disk = selected[j];
                    let mut l = label("Disk (");
                    l.append(disk.mount_point.as_str());
                    l.append(")");
                    proof {
                        reveal_strlit(")");
                        assert(")"@ =~= seq![')']);
                    }
                    assert(*disk == sel[j as int]);
                    let ghost old_rows = rows@;
                    rows.push((l, disk_value(disk)));
                    assert(rows_text(rows@) =~= rows_text(old_rows).push((disk_label(*disk), disk_text(*disk))));
                    j = j + 1;
                    assert(disk_rows(sel.subrange(0, j as int)) =~= disk_rows(sel.subrange(0, j - 1)).push((disk_label(sel[j - 1]), disk_text(sel[j - 1]))));
                    assert(rows_text(rows@) =~= before + disk_rows(sel.subrange(0, j as int)));
                }
                assert(sel.subrange(0, sel.len() as int) =~= sel);
            },
        }
        i = i + 1;
        assert(rows_text(rows@) =~= rows_for(*info, fields@.subrange(0, i as int), show_all_disks));
    }
    assert(fields@.subrange(0, fields@.len() as int) =~= fields@);
    rows
}

/// The labels of the rows.
pub open spec fn row_labels(rows: Seq<RowText>) -> Seq<Seq<char>> {
    rows.map_values(|r: RowText| r.0)
}

/// One rendered row: the label padded with spaces to `width`, the separator,
/// a space, then the value. With color, the label, separator and value are
/// each wrapped in their theme's style; the padding is computed from the
/// plain label and stays unstyled.
pub open spec fn block_line(row: RowText, width: nat, separator: Seq<char>, theme: Theme, use_color: bool) -> Seq<char> {
    let pad = spaces((width - row.0.len()) as nat);
    if use_color {
        styled(theme.label, row.0) + pad + styled(theme.separator, separator) + seq![' '] + styled(theme.value, row.1)
    } else {
        row.0 + pad + separator + seq![' '] + row.1
    }
}

/// All rows rendered, padded to the widest label.
pub open spec fn block_lines(rows: Seq<RowText>, separator: Seq<char>, theme: Theme, use_color: bool) -> Seq<Seq<char>> {
    rows.map_values(|r: RowText| block_line(r, max_width(row_labels(rows)), separator, theme, use_color))
}

/// Render `(label, value)` rows into aligned `"label<pad><sep> value"` lines.
///
/// Labels are padded to the widest label so the separators, and therefore the
/// values, line up. Padding is always computed from the *plain* label width;
/// color is applied afterwards so ANSI escape bytes never affect alignment.
pub fn render_block(rows: &[(String, String)], separator: &str, theme: &Theme, use_color: bool) -> (lines: Vec<String>)
    ensures
        lines_text(lines@) == block_lines(rows_text(rows@), separator@, *theme, use_color),
{
    let ghost text = rows_text(rows@);
    let ghost labels = row_labels(text);
    let mut width: usize = 0;
    let mut i: usize = 0;
    while i < rows.len()
        invariant
            i <= rows@.len(),
            text == rows_text(rows@),
            labels == row_labels(text),
            width == max_width(labels.subrange(0, i as int)),
        decreases rows@.len() - i,
    {
        let len = rows[i].0.as_str().unicode_len();
        assert(labels.subrange(0, i + 1).drop_last() =~= labels.subrange(0, i as int));
        assert(labels.subrange(0, i + 1).last() == rows@[i as int].0@);
        if len > width {
            width = len;
        }
        i = i + 1;
    }
    assert(labels.subrange(0, rows@.len() as int) =~= labels);
    proof {
        reveal_strlit(" ");
        assert(" "@ =~= seq![' ']);
    }
    let mut lines: Vec<String> = Vec::new();
    let mut i: usize = 0;
    while i < rows.len()
        invariant
            i <= rows@.len(),
            text == rows_text(rows@),
            labels == row_labels(text),
            width == max_width(labels),
            " "@ == seq![' '],
            lines_text(lines@) == block_lines(text, separator@, *theme, use_color).subrange(0, i as int),
        decreases rows@.len() - i,
    {
        let label = rows[i].0.as_str();
        let value = rows[i].1.as_str();
        proof {
            lemma_max_width_bound(labels, i as int);
        }
        let pad = width - label.unicode_len();
        let mut line = String::new();
        if use_color {
            line.append(theme.label.paint(label).as_str());
            push_spaces(&mut line, pad);
            line.append(theme.separator.paint(separator).as_str());
            line.append(" ");
            line.append(theme.value.paint(value).as_str());
        } else {
            line.append(label);
            push_spaces(&mut line, pad);
            line.append(separator);
            line.append(" ");
            line.append(value);
        }
        assert(text[i as int] == (label@, value@));
        assert(line@ == block_line(text[i as int], width as nat, separator@, *theme, use_color));
        let ghost old_lines = lines@;
        let ghost line_text = line@;
        lines.push(line);
        assert(lines_text(lines@) =~= lines_text(old_lines).push(line_text));
        assert(block_lines(text, separator@, *theme, use_color)[i as int] == line_text);
        i = i + 1;
        assert(lines_text(lines@) =~= block_lines(text, separator@, *theme, use_color).subrange(0, i as int));
    }
    lines
}

/// Every character of `s` is a space.
pub open spec fn all_spaces(s: Seq<char>) -> bool {
    forall|j: int| 0 <= j < s.len() ==> s[j] == ' '
}

/// The uncolored line of row `i` has the shape of an aligned row: the label,
/// spaces up to the column `w` just past the widest label, the separator,
/// one space, and the value, which ends the line.
pub open spec fn aligned_line(rows: Seq<RowText>, separator: Seq<char>, line: Seq<char>, i: int) -> bool {
    let w = max_width(row_labels(rows)) as int;
    &&& rows[i].0.len() <= w
    &&& line.len() == w + separator.len() + 1 + rows[i].1.len()
    &&& line.subrange(0, rows[i].0.len() as int) == rows[i].0
    &&& all_spaces(line.subrange(rows[i].0.len() as int, w))
    &&& line.subrange(w, w + separator.len()) == separator
    &&& line[w + separator.len()] == ' '
    &&& line.subrange(w + separator.len() + 1, line.len() as int) == rows[i].1
}

/// The colored line of row `i` starts with the label in the theme's label
/// style and ends with the value in its value style.
pub open spec fn themed_ends(rows: Seq<RowText>, theme: Theme, line: Seq<char>, i: int) -> bool {
    let head = styled(theme.label, rows[i].0);
    let tail = styled(theme.value, rows[i].1);
    &&& head.len() + tail.len() <= line.len()
    &&& line.subrange(0, head.len() as int) == head
    &&& line.subrange(line.len() - tail.len(), line.len() as int) == tail
}

/// The separators line up: there is one line per row, and in every uncolored
/// line the label is followed by spaces up to the column just past the widest
/// label, where the separator starts; the value follows it after one space
/// and ends the line. With color, a line starts with the label in the theme's
/// label style and ends with the value in its value style.
pub proof fn law_separators_align(rows: Seq<RowText>, separator: Seq<char>, theme: Theme)
    ensures
        block_lines(rows, separator, theme, false).len() == rows.len(),
        block_lines(rows, separator, theme, true).len() == rows.len(),
        forall|i: int|
            0 <= i < rows.len() ==> aligned_line(rows, separator, #[trigger] block_lines(rows, separator, theme, false)[i], i),
        forall|i: int|
            0 <= i < rows.len() ==> themed_ends(rows, theme, #[trigger] block_lines(rows, separator, theme, true)[i], i),
{
    assert forall|i: int| 0 <= i < rows.len() implies aligned_line(
        rows,
        separator,
        #[trigger] block_lines(rows, separator, theme, false)[i],
        i,
    ) by {
        let w = max_width(row_labels(rows)) as int;
        assert(row_labels(rows)[i] == rows[i].0);
        lemma_max_width_bound(row_labels(rows), i);
        let row = rows[i];
        let pad = spaces((w - row.0.len()) as nat);
        let line = block_lines(rows, separator, theme, false)[i];
        assert(line == row.0 + pad + separator + seq![' '] + row.1);
        assert(line.subrange(0, row.0.len() as int) =~= row.0);
        assert(line.subrange(row.0.len() as int, w) =~= pad);
        assert(line.subrange(w, w + separator.len()) =~= separator);
        assert(line[w + separator.len()] == ' ');
        assert(line.subrange(w + separator.len() + 1, line.len() as int) =~= row.1);
    }
    assert forall|i: int| 0 <= i < rows.len() implies themed_ends(
        rows,
        theme,
        #[trigger] block_lines(rows, separator, theme, true)[i],
        i,
    ) by {
        let w = max_width(row_labels(rows)) as int;
        let row = rows[i];
        let pad = spaces((w - row.0.len()) as nat);
        let head = styled(theme.label, row.0);
        let tail = styled(theme.value, row.1);
        let mid = pad + styled(theme.separator, separator) + seq![' '];
        let line = block_lines(rows, separator, theme, true)[i];
        assert(line =~= head + mid + tail);
        assert(line.subrange(0, head.len() as int) =~= head);
        assert(line.subrange(line.len() - tail.len(), line.len() as int) =~= tail);
    }
}

/// Color only adds escape sequences: when no label, value or separator holds
/// an escape character, every colored line with its escapes removed is the
/// uncolored line, so coloring never shifts the alignment.
pub proof fn law_color_keeps_block_text(rows: Seq<RowText>, separator: Seq<char>, theme: Theme)
    requires
        no_escape(separator),
        forall|i: int| #![trigger rows[i]] 0 <= i < rows.len() ==> no_escape(rows[i].0) && no_escape(rows[i].1),
    ensures
        forall|i: int|
            0 <= i < rows.len() ==> strip_ansi(#[trigger] block_lines(rows, separator, theme, true)[i])
                == block_lines(rows, separator, theme, false)[i],
{
    assert forall|i: int| 0 <= i < rows.len() implies strip_ansi(#[trigger] block_lines(rows, separator, theme, true)[i])
        == block_lines(rows, separator, theme, false)[i] by {
        let w = max_width(row_labels(rows)) as int;
        assert(no_escape(rows[i].0) && no_escape(rows[i].1));
        let row = rows[i];
        let pad = spaces((w - row.0.len()) as nat);
        let value_part = styled(theme.value, row.1);
        let after_sep = seq![' '] + value_part;
        let after_pad = styled(theme.separator, separator) + after_sep;
        let after_label = pad + after_pad;
        assert(block_lines(rows, separator, theme, true)[i] =~= styled(theme.label, row.0) + after_label);
        lemma_strip_styled(theme.label, row.0, after_label);
        lemma_strip_plain_prefix(pad, after_pad);
        lemma_strip_styled(theme.separator, separator, after_sep);
        lemma_strip_plain_prefix(seq![' '], value_part);
        lemma_strip_styled(theme.value, row.1, Seq::empty());
        assert(value_part =~= value_part + Seq::<char>::empty());
        assert(strip_ansi(Seq::<char>::empty()) =~= Seq::<char>::empty());
        assert(strip_ansi(block_lines(rows, separator, theme, true)[i]) =~= row.0 + pad + separator + seq![' '] + row.1);
    }
}

/// Asking for one more field keeps the rows already built and appends that
/// field's rows: host, OS, kernel and shell add their row when their data is
/// known and nothing otherwise; uptime, CPU and memory always add their row;
/// swap adds exactly one row, `Swap` with `<used> / <total>`, when a swap area
/// exists (a non-zero total) whether or not any of it is in use, and nothing
/// when there is none.
pub proof fn law_rows_of_each_field(info: SystemInfo, fields: Seq<Field>, f: Field, show_all: bool)
    ensures
        ({
            let before = rows_for(info, fields, show_all);
            let after = rows_for(info, fields.push(f), show_all);
            let added = after.subrange(before.len() as int, after.len() as int);
            &&& before.len() <= after.len()
            &&& after.subrange(0, before.len() as int) == before
            &&& f == Field::Host ==> added == match info.host_name {
                Some(h) => seq![("Host"@, h@)],
                None => Seq::<RowText>::empty(),
            }
            &&& f == Field::Os ==> added == match (info.os_name, info.os_version) {
                (Some(n), Some(v)) => seq![("OS"@, n@ + seq![' '] + v@)],
                (Some(n), None) => seq![("OS"@, n@)],
                _ => Seq::<RowText>::empty(),
            }
            &&& f == Field::Kernel ==> added == match info.kernel_version {
                Some(k) => seq![("Kernel"@, k@)],
                None => Seq::<RowText>::empty(),
            }
            &&& f == Field::Shell ==> added == match info.shell {
                Some(sh) => seq![("Shell"@, sh@)],
                None => Seq::<RowText>::empty(),
            }
            &&& f == Field::Uptime ==> added == seq![("Uptime"@, uptime_text(info.uptime_secs as nat))]
            &&& f == Field::Cpu ==> added == match info.cpu_model {
                Some(m) => seq![("CPU"@, m@ + " ("@ + decimal(info.cpu_count as nat) + " cores)"@)],
                None => seq![("CPU"@, decimal(info.cpu_count as nat) + " cores"@)],
            }
            &&& f == Field::Memory ==> added == seq![
                (
                    "Memory"@,
                    bytes_text(info.memory.used as nat) + " / "@ + bytes_text(info.memory.total as nat) + " ("@
                        + decimal(mem_percent(info.memory)) + "%)"@,
                ),
            ]
            &&& f == Field::Disks ==> added == info.disks@.filter(
                |d: DiskInfo| show_all || d.mount_point@ == seq!['/'],
            ).map_values(|d: DiskInfo| ("Disk ("@ + d.mount_point@ + ")"@, bytes_text(disk_used(d)) + " / "@ + bytes_text(d.total as nat)))
            &&& f == Field::Swap ==> added == (if info.memory.swap_total > 0 {
                seq![
                    (
                        "Swap"@,
                        bytes_text(info.memory.swap_used as nat) + seq![' ', '/', ' '] + bytes_text(
                            info.memory.swap_total as nat,
                        ),
                    ),
                ]
            } else {
                Seq::<RowText>::empty()
            })
        }),
{
    let before = rows_for(info, fields, show_all);
    let after = rows_for(info, fields.push(f), show_all);
    assert(fields.push(f).drop_last() =~= fields);
    assert(after == before + field_rows(info, f, show_all));
    assert(after.subrange(0, before.len() as int) =~= before);
    assert(after.subrange(before.len() as int, after.len() as int) =~= field_rows(info, f, show_all));
    reveal_strlit(" (");
    reveal_strlit(" / ");
    reveal_strlit("%)");
    reveal_strlit(")");
    assert(" / "@ =~= seq![' ', '/', ' ']);
    assert(" ("@ =~= seq![' ', '(']);
    assert("%)"@ =~= seq!['%', ')']);
    assert(")"@ =~= seq![')']);
    if f == Field::Disks {
        lemma_selected_disks_filter(info.disks@, show_all);
        assert(disk_rows(selected_disks(info.disks@, show_all)) =~= info.disks@.filter(
            |d: DiskInfo| show_all || d.mount_point@ == seq!['/'],
        ).map_values(|d: DiskInfo| ("Disk ("@ + d.mount_point@ + ")"@, bytes_text(disk_used(d)) + " / "@ + bytes_text(d.total as nat))));
    }
}

proof fn lemma_selected_disks_filter(disks: Seq<DiskInfo>, show_all: bool)
    ensures
        selected_disks(disks, show_all) == disks.filter(|d: DiskInfo| show_all || d.mount_point@ == seq!['/']),
    decreases disks.len(),
{
    reveal(Seq::filter);
    if disks.len() > 0 {
        lemma_selected_disks_filter(disks.drop_last(), show_all);
    }
}

/// The memory percentage is the share of memory in use, rounded down: with
/// `p` the percentage and a non-zero total no smaller than what is used,
/// `p * total <= 100 * used < (p + 1) * total`, so `p <= 100`; it is 0 when
/// the total is 0.
pub proof fn law_memory_percent(mem: MemoryInfo)
    ensures
        mem.total == 0 ==> mem_percent(mem) == 0,
        0 < mem.total && mem.used <= mem.total ==> {
            &&& mem_percent(mem) * (mem.total as nat) <= 100 * (mem.used as nat)
            &&& 100 * (mem.used as nat) < (mem_percent(mem) + 1) * (mem.total as nat)
            &&& mem_percent(mem) <= 100
        },
{
    if 0 < mem.total && mem.used <= mem.total {
        let u = mem.used as nat;
        let t = mem.total as nat;
        let q = (u * 100) / t;
        assert(q * t <= u * 100 && u * 100 < (q + 1) * t && q <= 100) by (nonlinear_arith)
            requires
                0 < t,
                u <= t,
                q == (u * 100) / t;
        assert(q < 0x10000000000000000);
        assert(mem_percent(mem) == q);
    }
}

/// The space in use on a disk is what is not available: used plus available
/// is the total when the available space fits in the total, and nothing is
/// counted as used when more than the total is reported available.
pub proof fn law_disk_used(disk: DiskInfo)
    ensures
        disk_used(disk) <= disk.total,
        disk.available <= disk.total ==> disk_used(disk) + disk.available == disk.total,
        disk.available > disk.total ==> disk_used(disk) == 0,
{
}

} // verus!
