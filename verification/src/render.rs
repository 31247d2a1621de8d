use vstd::prelude::*;
use vstd::string::StrSliceExecFns;
use vstd::string::StringExecFns;

use crate::app::{App, AppView, ModeView};
use crate::tab::Tab;
use crate::text::{push_char, repeat_char, spec_decimal, strings_view, usize_to_string};
use crate::wrap::split_to_fit;

verus! {

/// One draw instruction: text at a position, normal or inverted. The
/// terminal layer only executes these.
pub struct DrawCmd {
    pub x: u16,
    pub y: u16,
    pub text: String,
    pub inverted: bool,
}

/// The mathematical shape of a draw instruction.
#[verifier::ext_equal]
pub struct DrawCmdView {
    pub x: int,
    pub y: int,
    pub text: Seq<char>,
    pub inverted: bool,
}

impl View for DrawCmd {
    type V = DrawCmdView;

    open spec fn view(&self) -> DrawCmdView {
        DrawCmdView { x: self.x as int, y: self.y as int, text: self.text@, inverted: self.inverted }
    }
}

/// The mathematical contents of a list of draw instructions.
pub open spec fn cmds_view(s: Seq<DrawCmd>) -> Seq<DrawCmdView> {
    Seq::new(s.len(), |i: int| s[i]@)
}

pub proof fn lemma_cmds_view_push(s: Seq<DrawCmd>, c: DrawCmd)
    ensures
        cmds_view(s.push(c)) =~= cmds_view(s).push(c@),
{
}

/// `s` padded with spaces on the left up to width `w` (unchanged if
/// already that wide).
pub open spec fn pad_left(s: Seq<char>, w: int) -> Seq<char> {
    if s.len() >= w {
        s
    } else {
        Seq::new((w - s.len()) as nat, |i: int| ' ') + s
    }
}

/// `s` padded with spaces on the right up to width `w`.
pub open spec fn pad_right(s: Seq<char>, w: int) -> Seq<char> {
    if s.len() >= w {
        s
    } else {
        s + Seq::new((w - s.len()) as nat, |i: int| ' ')
    }
}

/// The label an entry is drawn with: its ordinal right-aligned to the
/// width of the list's largest ordinal and closed with a dot when
/// numbering is on, the fixed bullet otherwise.
pub open spec fn spec_label(total: int, idx: int, show_number: bool, bullet: Seq<char>) -> Seq<
    char,
> {
    if show_number {
        pad_left(spec_decimal(idx + 1), spec_decimal(total).len() as int).push('.')
    } else {
        bullet
    }
}

fn make_label(total: usize, idx: usize, show_number: bool, bullet: &str) -> (r: String)
    requires
        idx < total,
    ensures
        r@ == spec_label(total as int, idx as int, show_number, bullet@),
{
    if show_number {
        let num = usize_to_string(idx + 1);
        let width = usize_to_string(total).as_str().unicode_len();
        let num_len = num.as_str().unicode_len();
        let mut out = if width > num_len {
            repeat_char(' ', width - num_len)
        } else {
            String::new()
        };
        out.append(num.as_str());
        push_char(&mut out, '.');
        proof {
            assert(out@ =~= spec_label(total as int, idx as int, show_number, bullet@));
        }
        out
    } else {
        String::from_str(bullet)
    }
}

/// The text lines one entry occupies: its labelled first segment,
/// then each continuation segment indented with spaces to align under
/// the start of the item text.
pub open spec fn spec_item_lines(
    item: Seq<char>,
    total: int,
    idx: int,
    show_number: bool,
    bullet: Seq<char>,
    budget: int,
) -> Seq<Seq<char>> {
    let label = spec_label(total, idx, show_number, bullet);
    let full = label.push(' ') + item;
    let segs = crate::wrap::wrap_segments(full, budget);
    let contpad = Seq::new((label.len() + 1) as nat, |i: int| ' ');
    Seq::new(
        segs.len(),
        |j: int|
            if j == 0 {
                segs[0]
            } else {
                contpad + segs[j]
            },
    )
}

/// How many screen lines the entries of a pane occupy from entry
/// `idx` on.
pub open spec fn spec_pane_lines_from(
    items: Seq<Seq<char>>,
    show_number: bool,
    bullet: Seq<char>,
    budget: int,
    idx: int,
) -> int
    decreases items.len() - idx,
{
    if idx < 0 || idx >= items.len() {
        0
    } else {
        spec_item_lines(items[idx], items.len() as int, idx, show_number, bullet, budget).len()
            + spec_pane_lines_from(items, show_number, bullet, budget, idx + 1)
    }
}

/// How many screen lines a whole pane occupies.
pub open spec fn spec_pane_lines(
    items: Seq<Seq<char>>,
    show_number: bool,
    bullet: Seq<char>,
    budget: int,
) -> int {
    spec_pane_lines_from(items, show_number, bullet, budget, 0)
}

proof fn lemma_pane_lines_from_nonneg(
    items: Seq<Seq<char>>,
    show_number: bool,
    bullet: Seq<char>,
    budget: int,
    idx: int,
)
    ensures
        spec_pane_lines_from(items, show_number, bullet, budget, idx) >= 0,
    decreases items.len() - idx,
{
    if 0 <= idx < items.len() {
        lemma_pane_lines_from_nonneg(items, show_number, bullet, budget, idx + 1);
    }
}

/// The draw instructions of a pane from entry `idx` on, the first of
/// them on row `row`: every entry's lines in order, each entry's block
/// directly under the previous one, and only the active pane's
/// selected entry inverted.
pub open spec fn spec_pane_cmds_from(
    items: Seq<Seq<char>>,
    sel: int,
    active: bool,
    show_number: bool,
    bullet: Seq<char>,
    budget: int,
    x: int,
    idx: int,
    row: int,
) -> Seq<DrawCmdView>
    decreases items.len() - idx,
{
    if idx < 0 || idx >= items.len() {
        Seq::empty()
    } else {
        let block = spec_item_lines(items[idx], items.len() as int, idx, show_number, bullet, budget);
        let hl = active && idx == sel;
        Seq::new(
            block.len(),
            |j: int| DrawCmdView { x, y: row + j, text: block[j], inverted: hl },
        ) + spec_pane_cmds_from(
            items,
            sel,
            active,
            show_number,
            bullet,
            budget,
            x,
            idx + 1,
            row + block.len(),
        )
    }
}

/// The draw instructions of a whole pane, starting on row 1 (row 0 is
/// the header).
pub open spec fn spec_pane_cmds(
    items: Seq<Seq<char>>,
    sel: int,
    active: bool,
    show_number: bool,
    bullet: Seq<char>,
    budget: int,
    x: int,
) -> Seq<DrawCmdView> {
    spec_pane_cmds_from(items, sel, active, show_number, bullet, budget, x, 0, 1)
}

/// The labelled full line of one entry and its block of screen lines,
/// computed the same way the specification states them.
fn item_block(
    items: &Vec<String>,
    i: usize,
    show_number: bool,
    bullet: &str,
    budget: usize,
) -> (r: (Vec<String>, Ghost<Seq<Seq<char>>>))
    requires
        i < items@.len(),
    ensures
        ({
            let block = spec_item_lines(
                strings_view(items@)[i as int],
                items@.len() as int,
                i as int,
                show_number,
                bullet@,
                budget as int,
            );
            &&& r.1@ == block
            &&& strings_view(r.0@) =~= block
            &&& r.0@.len() >= 1
        }),
{
    let label = make_label(items.len(), i, show_number, bullet);
    let lbl_len = label.as_str().unicode_len();
    let mut contpad = repeat_char(' ', lbl_len);
    push_char(&mut contpad, ' ');
    let mut full = label;
    push_char(&mut full, ' ');
    full.append(items[i].as_str());
    let ghost glabel = spec_label(items@.len() as int, i as int, show_number, bullet@);
    proof {
        assert(full@ =~= glabel.push(' ') + strings_view(items@)[i as int]);
        assert(contpad@ =~= Seq::new((glabel.len() + 1) as nat, |k: int| ' '));
        assert(full@.len() > 0);
    }
    let (first, conts) = split_to_fit(full.as_str(), budget);
    let ghost segs = crate::wrap::wrap_segments(full@, budget as int);
    let ghost block = spec_item_lines(
        strings_view(items@)[i as int],
        items@.len() as int,
        i as int,
        show_number,
        bullet@,
        budget as int,
    );
    let mut lines: Vec<String> = Vec::new();
    lines.push(String::from_str(first));
    let mut j: usize = 0;
    proof {
        assert(block.len() == segs.len());
        assert(block[0] == segs[0]);
        assert(strings_view(lines@) =~= block.subrange(0, 1));
    }
    while j < conts.len()
        invariant
            j <= conts.len(),
            conts.deep_view() =~= segs.drop_first(),
            segs.len() == conts@.len() + 1,
            block == spec_item_lines(
                strings_view(items@)[i as int],
                items@.len() as int,
                i as int,
                show_number,
                bullet@,
                budget as int,
            ),
            block.len() == segs.len(),
            contpad@ == Seq::new((glabel.len() + 1) as nat, |k: int| ' '),
            glabel == spec_label(items@.len() as int, i as int, show_number, bullet@),
            forall|k: int|
                1 <= k < block.len() ==> #[trigger] block[k] == contpad@ + segs[k],
            strings_view(lines@) =~= block.subrange(0, j as int + 1),
        decreases conts@.len() - j,
    {
        let mut line = contpad.clone();
        line.append(conts[j]);
        let ghost gline: String = line;
        lines.push(line);
        proof {
            let prev = lines@.drop_last();
            assert(lines@ =~= prev.push(gline));
            crate::text::lemma_strings_view_push(prev, gline);
            assert(strings_view(lines@) =~= strings_view(prev).push(gline@));
            assert(conts.deep_view()[j as int] == conts@[j as int]@);
            assert(segs[j as int + 1] == segs.drop_first()[j as int]);
            assert(gline@ == contpad@ + conts@[j as int]@);
            assert(gline@ == block[j as int + 1]);
            assert(block.subrange(0, j as int + 2) =~= block.subrange(0, j as int + 1).push(
                block[j as int + 1],
            ));
            assert(strings_view(lines@) =~= block.subrange(0, j as int + 2));
        }
        j = j + 1;
    }
    proof {
        assert(block.subrange(0, block.len() as int) =~= block);
    }
    (lines, Ghost(block))
}

/// Whether a pane's lines all fit in the terminal's row range: draw
/// instructions address rows by a 16-bit coordinate, the one machine
/// limit the renderer exposes.
fn pane_fits(items: &Vec<String>, show_number: bool, bullet: &str, budget: usize) -> (b: bool)
    ensures
        b == (spec_pane_lines(strings_view(items@), show_number, bullet@, budget as int)
            <= 0xFFFF),
{
    let n = items.len();
    let ghost iv = strings_view(items@);
    let mut count: usize = 0;
    let mut i: usize = 0;
    while i < n
        invariant
            i <= n,
            n as nat == items@.len(),
            iv == strings_view(items@),
            count <= 0xFFFF,
            spec_pane_lines(iv, show_number, bullet@, budget as int) == count
                + spec_pane_lines_from(iv, show_number, bullet@, budget as int, i as int),
        decreases n - i,
    {
        let (lines, gblock) = item_block(items, i, show_number, bullet, budget);
        let bl = lines.len();
        proof {
            lemma_pane_lines_from_nonneg(iv, show_number, bullet@, budget as int, i as int + 1);
            assert(gblock@.len() == strings_view(lines@).len());
        }
        if bl > 0xFFFF - count {
            return false;
        }
        count = count + bl;
        i = i + 1;
    }
    true
}

/// The draw instructions of one pane. The caller has checked that the
/// pane fits the row range.
fn render_items(
    items: &Vec<String>,
    selected: usize,
    active: bool,
    show_number: bool,
    bullet: &str,
    budget: usize,
    x: u16,
) -> (r: Vec<DrawCmd>)
    requires
        spec_pane_lines(strings_view(items@), show_number, bullet@, budget as int) <= 0xFFFF,
    ensures
        cmds_view(r@) =~= spec_pane_cmds(
            strings_view(items@),
            selected as int,
            active,
            show_number,
            bullet@,
            budget as int,
            x as int,
        ),
{
    let n = items.len();
    let ghost iv = strings_view(items@);
    let mut out: Vec<DrawCmd> = Vec::new();
    let mut row: u32 = 1;
    let mut i: usize = 0;
    while i < n
        invariant
            i <= n,
            n as nat == items@.len(),
            iv == strings_view(items@),
            1 <= row,
            spec_pane_lines(iv, show_number, bullet@, budget as int) <= 0xFFFF,
            row as int - 1 + spec_pane_lines_from(
                iv,
                show_number,
                bullet@,
                budget as int,
                i as int,
            ) == spec_pane_lines(iv, show_number, bullet@, budget as int),
            spec_pane_cmds(
                iv,
                selected as int,
                active,
                show_number,
                bullet@,
                budget as int,
                x as int,
            ) =~= cmds_view(out@) + spec_pane_cmds_from(
                iv,
                selected as int,
                active,
                show_number,
                bullet@,
                budget as int,
                x as int,
                i as int,
                row as int,
            ),
        decreases n - i,
    {
        let (lines, gblock) = item_block(items, i, show_number, bullet, budget);
        let bl = lines.len();
        let hl = active && i == selected;
        let ghost base = cmds_view(out@);
        let ghost block_cmds = Seq::new(
            gblock@.len(),
            |j: int|
                DrawCmdView {
                    x: x as int,
                    y: row as int + j,
                    text: gblock@[j],
                    inverted: hl,
                },
        );
        proof {
            lemma_pane_lines_from_nonneg(iv, show_number, bullet@, budget as int, i as int + 1);
            assert(gblock@.len() == strings_view(lines@).len());
            assert(row as int - 1 + bl as int <= 0xFFFF);
        }
        let mut j: usize = 0;
        while j < bl
            invariant
                j <= bl,
                bl as nat == lines@.len(),
                lines@.len() == gblock@.len(),
                strings_view(lines@) =~= gblock@,
                row as int - 1 + bl as int <= 0xFFFF,
                row >= 1,
                block_cmds == Seq::new(
                    gblock@.len(),
                    |k: int|
                        DrawCmdView {
                            x: x as int,
                            y: row as int + k,
                            text: gblock@[k],
                            inverted: hl,
                        },
                ),
                cmds_view(out@) =~= base + block_cmds.subrange(0, j as int),
            decreases bl - j,
        {
            let y16: u16 = (row + j as u32) as u16;
            let cmd = DrawCmd { x, y: y16, text: lines[j].clone(), inverted: hl };
            let ghost gcmd = cmd;
            out.push(cmd);
            proof {
                assert(out@ =~= out@.drop_last().push(gcmd));
                lemma_cmds_view_push(out@.drop_last(), gcmd);
                assert(gcmd@ == block_cmds[j as int]);
                assert(block_cmds.subrange(0, j as int + 1) =~= block_cmds.subrange(
                    0,
                    j as int,
                ).push(block_cmds[j as int]));
                assert(cmds_view(out@) =~= (base + block_cmds.subrange(0, j as int)).push(
                    block_cmds[j as int],
                ));
                assert((base + block_cmds.subrange(0, j as int)).push(block_cmds[j as int])
                    =~= base + block_cmds.subrange(0, j as int).push(block_cmds[j as int]));
                assert(cmds_view(out@) =~= base + block_cmds.subrange(0, j as int + 1));
            }
            j = j + 1;
        }
        proof {
            assert(block_cmds.subrange(0, bl as int) =~= block_cmds);
            assert(spec_pane_cmds_from(
                iv,
                selected as int,
                active,
                show_number,
                bullet@,
                budget as int,
                x as int,
                i as int,
                row as int,
            ) =~= block_cmds + spec_pane_cmds_from(
                iv,
                selected as int,
                active,
                show_number,
                bullet@,
                budget as int,
                x as int,
                i as int + 1,
                row as int + bl as int,
            ));
        }
        row = row + bl as u32;
        i = i + 1;
    }
    out
}

/// The header row: the two list titles, the active one inverted, the
/// right one starting at the middle column.
pub open spec fn spec_header(v: AppView, cols: int) -> Seq<DrawCmdView> {
    seq![
        DrawCmdView { x: 0, y: 0, text: "TODO"@, inverted: v.curr_tab is Todos },
        DrawCmdView { x: cols / 2, y: 0, text: "DONE"@, inverted: v.curr_tab is Dones },
    ]
}

/// The status line: the current mode's name, always inverted, at the
/// bottom left.
pub open spec fn spec_status_text(m: ModeView) -> Seq<char> {
    match m {
        ModeView::Normal => "NORMAL"@,
        ModeView::InsertNew => "INSERT"@,
        ModeView::InsertEdit(_) => "EDIT"@,
        ModeView::Help => "HELP"@,
    }
}

pub open spec fn spec_status(v: AppView, rows: int) -> DrawCmdView {
    DrawCmdView {
        x: 0,
        y: if rows > 0 {
            rows - 1
        } else {
            0
        },
        text: spec_status_text(v.mode),
        inverted: true,
    }
}

/// The key-reference screen's sections: titles, key labels and what
/// each key does.
pub open spec fn spec_actions_title() -> Seq<char> {
    "ACTIONS"@
}

pub open spec fn spec_actions_keys() -> Seq<Seq<char>> {
    seq!["f1"@, "i / o"@, "e"@, "J / K"@, "q"@, "Q"@]
}

pub open spec fn spec_actions_descs() -> Seq<Seq<char>> {
    seq![
        "Show this screen"@,
        "Insert item above / below"@,
        "Edit item under cursor"@,
        "Move item under cursor down / up"@,
        "Save and quit"@,
        "Quit without saving"@,
    ]
}

pub open spec fn spec_movement_title() -> Seq<char> {
    "MOVEMENT"@
}

pub open spec fn spec_movement_keys() -> Seq<Seq<char>> {
    seq!["j / k"@, "g / G"@, "Tab"@, "<- / ->"@]
}

pub open spec fn spec_movement_descs() -> Seq<Seq<char>> {
    seq![
        "Move cursor down / up"@,
        "Jump to beginning / end"@,
        "Toggle Tab"@,
        "Change to todo/done tab"@,
    ]
}

pub open spec fn spec_insert_title() -> Seq<char> {
    "INSERT / EDIT MODE"@
}

pub open spec fn spec_insert_keys() -> Seq<Seq<char>> {
    seq!["(type normally)"@, "Enter"@, "Esc"@]
}

pub open spec fn spec_insert_descs() -> Seq<Seq<char>> {
    seq!["Edit text"@, "Save changes"@, "Cancel"@]
}

pub open spec fn spec_leaving_title() -> Seq<char> {
    "LEAVING HELP"@
}

pub open spec fn spec_leaving_keys() -> Seq<Seq<char>> {
    seq!["q / Q"@]
}

pub open spec fn spec_leaving_descs() -> Seq<Seq<char>> {
    seq!["Quit help screen"@]
}

/// The running maximum of the lengths of a batch of labels.
pub open spec fn spec_fold_max(s: Seq<Seq<char>>, a: int) -> int
    decreases s.len(),
{
    if s.len() == 0 {
        a
    } else {
        let rest = spec_fold_max(s.drop_last(), a);
        if s.last().len() > rest {
            s.last().len() as int
        } else {
            rest
        }
    }
}

/// The one padding width all key labels share: the length of the
/// longest label across all sections.
pub open spec fn spec_help_key_width() -> int {
    spec_fold_max(
        spec_leaving_keys(),
        spec_fold_max(
            spec_insert_keys(),
            spec_fold_max(spec_movement_keys(), spec_fold_max(spec_actions_keys(), 0)),
        ),
    )
}

fn fold_max_len(v: &Vec<&str>, init: usize) -> (r: usize)
    ensures
        r as int == spec_fold_max(v.deep_view(), init as int),
{
    let mut acc = init;
    let mut i: usize = 0;
    while i < v.len()
        invariant
            i <= v@.len(),
            acc as int == spec_fold_max(v.deep_view().subrange(0, i as int), init as int),
        decreases v@.len() - i,
    {
        let l = v[i].unicode_len();
        proof {
            let pre = v.deep_view().subrange(0, i as int + 1);
            assert(pre.drop_last() =~= v.deep_view().subrange(0, i as int));
            assert(pre.last() == v.deep_view()[i as int]);
        }
        if l > acc {
            acc = l;
        }
        i = i + 1;
    }
    proof {
        assert(v.deep_view().subrange(0, v.deep_view().len() as int) =~= v.deep_view());
    }
    acc
}

/// One key-reference line: two spaces, the key padded to the shared
/// width, a dash, and the description.
pub open spec fn spec_entry_line(key: Seq<char>, desc: Seq<char>, w: int) -> Seq<char> {
    "  "@ + pad_right(key, w) + "  - "@ + desc
}

/// One section: its title, one line per key, and a blank line.
pub open spec fn spec_section_lines(
    title: Seq<char>,
    keys: Seq<Seq<char>>,
    descs: Seq<Seq<char>>,
    w: int,
) -> Seq<Seq<char>> {
    seq![title] + Seq::new(keys.len(), |j: int| spec_entry_line(keys[j], descs[j], w)) + seq![
        ""@,
    ]
}

/// A divider of `=` across the whole width.
pub open spec fn spec_divider(cols: int) -> Seq<char> {
    Seq::new(if cols >= 0 {
        cols as nat
    } else {
        0
    }, |i: int| '=')
}

/// Every line of the help screen, top to bottom.
pub open spec fn spec_help_lines(cols: int) -> Seq<Seq<char>> {
    let w = spec_help_key_width();
    let divider = spec_divider(cols);
    seq![divider, "HELP"@, divider, ""@] + spec_section_lines(
        spec_actions_title(),
        spec_actions_keys(),
        spec_actions_descs(),
        w,
    ) + spec_section_lines(
        spec_movement_title(),
        spec_movement_keys(),
        spec_movement_descs(),
        w,
    ) + spec_section_lines(spec_insert_title(), spec_insert_keys(), spec_insert_descs(), w)
        + spec_section_lines(
        spec_leaving_title(),
        spec_leaving_keys(),
        spec_leaving_descs(),
        w,
    ) + seq![spec_divider(cols)]
}

/// The help screen as draw instructions: each line on its own row
/// from the top, never inverted.
pub open spec fn spec_help_cmds(cols: int) -> Seq<DrawCmdView> {
    let lines = spec_help_lines(cols);
    Seq::new(
        lines.len(),
        |i: int| DrawCmdView { x: 0, y: i, text: lines[i], inverted: false },
    )
}

/// Appends one section's lines: the title, each key padded to the
/// shared width with its description, and a blank line.
fn emit_section(out: &mut Vec<String>, title: &str, keys: &Vec<&str>, descs: &Vec<&str>, w: usize)
    requires
        keys@.len() == descs@.len(),
    ensures
        strings_view(final(out)@) =~= strings_view(old(out)@) + spec_section_lines(
            title@,
            keys.deep_view(),
            descs.deep_view(),
            w as int,
        ),
{
    let ghost base = strings_view(out@);
    let ghost kv = keys.deep_view();
    let ghost dv = descs.deep_view();
    let t = String::from_str(title);
    let ghost gt: String = t;
    out.push(t);
    proof {
        crate::text::lemma_strings_view_push(out@.drop_last(), gt);
        assert(strings_view(out@) =~= base.push(title@));
    }
    let mut j: usize = 0;
    while j < keys.len()
        invariant
            j <= keys@.len(),
            keys@.len() == descs@.len(),
            kv == keys.deep_view(),
            dv == descs.deep_view(),
            strings_view(out@) =~= base.push(title@) + Seq::new(
                j as nat,
                |k: int| spec_entry_line(kv[k], dv[k], w as int),
            ),
        decreases keys@.len() - j,
    {
        let key = keys[j];
        let klen = key.unicode_len();
        let mut line = String::from_str("  ");
        line.append(key);
        if w > klen {
            let pad = repeat_char(' ', w - klen);
            line.append(pad.as_str());
        }
        line.append("  - ");
        line.append(descs[j]);
        proof {
            assert(line@ =~= spec_entry_line(kv[j as int], dv[j as int], w as int));
        }
        let ghost gline: String = line;
        out.push(line);
        proof {
            let prev = out@.drop_last();
            assert(out@ =~= prev.push(gline));
            crate::text::lemma_strings_view_push(prev, gline);
            assert(strings_view(out@) =~= strings_view(prev).push(gline@));
            assert((base.push(title@) + Seq::new(
                j as nat,
                |k: int| spec_entry_line(kv[k], dv[k], w as int),
            )).push(gline@) =~= base.push(title@) + Seq::new(
                j as nat + 1,
                |k: int| spec_entry_line(kv[k], dv[k], w as int),
            ));
            assert(strings_view(out@) =~= base.push(title@) + Seq::new(
                j as nat + 1,
                |k: int| spec_entry_line(kv[k], dv[k], w as int),
            ));
        }
        j = j + 1;
    }
    let blank = String::new();
    let ghost gblank: String = blank;
    out.push(blank);
    proof {
        reveal_strlit("");
        let prev = out@.drop_last();
        assert(out@ =~= prev.push(gblank));
        crate::text::lemma_strings_view_push(prev, gblank);
        assert(strings_view(out@) =~= strings_view(prev).push(gblank@));
        assert(gblank@ =~= ""@);
        assert(kv.len() == keys@.len());
        assert(strings_view(prev) =~= base.push(title@) + Seq::new(
            kv.len(),
            |k: int| spec_entry_line(kv[k], dv[k], w as int),
        ));
        assert(base + spec_section_lines(title@, kv, dv, w as int) =~= (base.push(title@)
            + Seq::new(kv.len(), |k: int| spec_entry_line(kv[k], dv[k], w as int))).push(""@));
        assert(strings_view(out@) =~= base + spec_section_lines(
            title@,
            kv,
            dv,
            w as int,
        ));
    }
}

fn render_header(app: &App, cols: u16) -> (r: Vec<DrawCmd>)
    ensures
        cmds_view(r@) =~= spec_header(app@, cols as int),
{
    let is_todo = matches!(app.curr_tab, Tab::Todos);
    let mut out: Vec<DrawCmd> = Vec::new();
    out.push(
        DrawCmd { x: 0, y: 0, text: String::from_str("TODO"), inverted: is_todo },
    );
    out.push(
        DrawCmd { x: cols / 2, y: 0, text: String::from_str("DONE"), inverted: !is_todo },
    );
    out
}

fn render_status(app: &App, rows: u16) -> (r: DrawCmd)
    ensures
        r@ == spec_status(app@, rows as int),
{
    let text = match &app.mode {
        crate::app::Mode::Normal => String::from_str("NORMAL"),
        crate::app::Mode::Insert(crate::app::InsertMode::New) => String::from_str("INSERT"),
        crate::app::Mode::Insert(crate::app::InsertMode::Edit(_)) => String::from_str("EDIT"),
        crate::app::Mode::Help => String::from_str("HELP"),
    };
    let y = if rows > 0 {
        rows - 1
    } else {
        0
    };
    DrawCmd { x: 0, y, text, inverted: true }
}

/// The bullet a todo entry is drawn with when numbering is off.
pub open spec fn spec_todo_bullet() -> Seq<char> {
    "[ ]"@
}

/// The bullet a done entry is drawn with when numbering is off.
pub open spec fn spec_done_bullet() -> Seq<char> {
    "[x]"@
}

pub fn todo_bullet() -> (r: &'static str)
    ensures
        r@ == spec_todo_bullet(),
{
    "[ ]"
}

pub fn done_bullet() -> (r: &'static str)
    ensures
        r@ == spec_done_bullet(),
{
    "[x]"
}

/// The width budget of the left pane: up to the middle column, one
/// column short as a gap.
pub open spec fn spec_left_budget(cols: int) -> int {
    if cols / 2 >= 1 {
        cols / 2 - 1
    } else {
        0
    }
}

/// The width budget of the right pane: from the middle column on.
pub open spec fn spec_right_budget(cols: int) -> int {
    cols / 2
}

/// The whole help screen as draw instructions.
pub fn render_help_screen(cols: u16) -> (r: Vec<DrawCmd>)
    ensures
        cmds_view(r@) =~= spec_help_cmds(cols as int),
{
    let mut a_keys: Vec<&str> = Vec::new();
    a_keys.push("f1");
    a_keys.push("i / o");
    a_keys.push("e");
    a_keys.push("J / K");
    a_keys.push("q");
    a_keys.push("Q");
    let mut a_descs: Vec<&str> = Vec::new();
    a_descs.push("Show this screen");
    a_descs.push("Insert item above / below");
    a_descs.push("Edit item under cursor");
    a_descs.push("Move item under cursor down / up");
    a_descs.push("Save and quit");
    a_descs.push("Quit without saving");
    let mut m_keys: Vec<&str> = Vec::new();
    m_keys.push("j / k");
    m_keys.push("g / G");
    m_keys.push("Tab");
    m_keys.push("<- / ->");
    let mut m_descs: Vec<&str> = Vec::new();
    m_descs.push("Move cursor down / up");
    m_descs.push("Jump to beginning / end");
    m_descs.push("Toggle Tab");
    m_descs.push("Change to todo/done tab");
    let mut i_keys: Vec<&str> = Vec::new();
    i_keys.push("(type normally)");
    i_keys.push("Enter");
    i_keys.push("Esc");
    let mut i_descs: Vec<&str> = Vec::new();
    i_descs.push("Edit text");
    i_descs.push("Save changes");
    i_descs.push("Cancel");
    let mut l_keys: Vec<&str> = Vec::new();
    l_keys.push("q / Q");
    let mut l_descs: Vec<&str> = Vec::new();
    l_descs.push("Quit help screen");
    proof {
        assert(a_keys.deep_view() =~= spec_actions_keys());
        assert(a_descs.deep_view() =~= spec_actions_descs());
        assert(m_keys.deep_view() =~= spec_movement_keys());
        assert(m_descs.deep_view() =~= spec_movement_descs());
        assert(i_keys.deep_view() =~= spec_insert_keys());
        assert(i_descs.deep_view() =~= spec_insert_descs());
        assert(l_keys.deep_view() =~= spec_leaving_keys());
        assert(l_descs.deep_view() =~= spec_leaving_descs());
    }
    let w0 = fold_max_len(&a_keys, 0);
    let w1 = fold_max_len(&m_keys, w0);
    let w2 = fold_max_len(&i_keys, w1);
    let w = fold_max_len(&l_keys, w2);
    proof {
        assert(w as int == spec_help_key_width());
    }
    let divider = repeat_char('=', cols as usize);
    let mut lines: Vec<String> = Vec::new();
    lines.push(divider.clone());
    lines.push(String::from_str("HELP"));
    lines.push(divider.clone());
    lines.push(String::new());
    proof {
        reveal_strlit("");
        assert(lines@.len() == 4);
        assert(lines@[0]@ =~= spec_divider(cols as int));
        assert(lines@[1]@ =~= "HELP"@);
        assert(lines@[2]@ =~= spec_divider(cols as int));
        assert(lines@[3]@ =~= ""@);
        assert(strings_view(lines@) =~= seq![
            spec_divider(cols as int),
            "HELP"@,
            spec_divider(cols as int),
            ""@,
        ]);
    }
    emit_section(&mut lines, "ACTIONS", &a_keys, &a_descs, w);
    emit_section(&mut lines, "MOVEMENT", &m_keys, &m_descs, w);
    emit_section(&mut lines, "INSERT / EDIT MODE", &i_keys, &i_descs, w);
    emit_section(&mut lines, "LEAVING HELP", &l_keys, &l_descs, w);
    let ghost gdivider: String = divider;
    lines.push(divider);
    proof {
        let prev = lines@.drop_last();
        assert(lines@ =~= prev.push(gdivider));
        crate::text::lemma_strings_view_push(prev, gdivider);
        assert(strings_view(lines@) =~= strings_view(prev).push(gdivider@));
        assert(strings_view(lines@) =~= spec_help_lines(cols as int));
    }
    let n = lines.len();
    proof {
        assert(spec_help_lines(cols as int).len() == 27);
    }
    let mut out: Vec<DrawCmd> = Vec::new();
    let mut i: usize = 0;
    while i < n
        invariant
            i <= n,
            n as nat == lines@.len(),
            n == 27,
            strings_view(lines@) =~= spec_help_lines(cols as int),
            cmds_view(out@) =~= spec_help_cmds(cols as int).subrange(0, i as int),
        decreases n - i,
    {
        let cmd = DrawCmd { x: 0, y: i as u16, text: lines[i].clone(), inverted: false };
        let ghost gcmd = cmd;
        out.push(cmd);
        proof {
            let prev = out@.drop_last();
            assert(out@ =~= prev.push(gcmd));
            lemma_cmds_view_push(prev, gcmd);
            assert(gcmd@ == spec_help_cmds(cols as int)[i as int]);
            assert(spec_help_cmds(cols as int).subrange(0, i as int + 1) =~= spec_help_cmds(
                cols as int,
            ).subrange(0, i as int).push(spec_help_cmds(cols as int)[i as int]));
            assert(cmds_view(out@) =~= spec_help_cmds(cols as int).subrange(0, i as int + 1));
        }
        i = i + 1;
    }
    proof {
        assert(spec_help_cmds(cols as int).subrange(0, 27) =~= spec_help_cmds(cols as int));
    }
    out
}

/// One whole frame: the two panes under their headers with the status
/// line, or the help screen with the status line. Nothing is returned
/// only when a pane's lines would run past the 16-bit row range of a
/// draw instruction.
pub open spec fn spec_frame(v: AppView, cols: int, rows: int) -> Option<Seq<DrawCmdView>> {
    if v.mode is Help {
        Some(spec_help_cmds(cols) + seq![spec_status(v, rows)])
    } else {
        if spec_pane_lines(v.todos, v.show_number, spec_todo_bullet(), spec_left_budget(cols))
            > 0xFFFF || spec_pane_lines(
            v.dones,
            v.show_number,
            spec_done_bullet(),
            spec_right_budget(cols),
        ) > 0xFFFF {
            None
        } else {
            Some(
                spec_header(v, cols) + spec_pane_cmds(
                    v.todos,
                    v.todos_idx,
                    v.curr_tab is Todos,
                    v.show_number,
                    spec_todo_bullet(),
                    spec_left_budget(cols),
                    0,
                ) + spec_pane_cmds(
                    v.dones,
                    v.dones_idx,
                    v.curr_tab is Dones,
                    v.show_number,
                    spec_done_bullet(),
                    spec_right_budget(cols),
                    cols / 2,
                ) + seq![spec_status(v, rows)],
            )
        }
    }
}

/// Renders one frame of the given terminal size as a list of draw
/// instructions for the terminal layer to execute in order.
pub fn render_frame(app: &App, cols: u16, rows: u16) -> (r: Option<Vec<DrawCmd>>)
    ensures
        match r {
            Some(cmds) => spec_frame(app@, cols as int, rows as int) == Some(cmds_view(cmds@)),
            None => spec_frame(app@, cols as int, rows as int) is None,
        },
{
    if matches!(app.mode, crate::app::Mode::Help) {
        let mut out = render_help_screen(cols);
        let ghost ghelp = cmds_view(out@);
        let st = render_status(app, rows);
        let ghost gst = st;
        out.push(st);
        proof {
            let prev = out@.drop_last();
            assert(out@ =~= prev.push(gst));
            lemma_cmds_view_push(prev, gst);
            assert(cmds_view(out@) =~= spec_help_cmds(cols as int) + seq![
                spec_status(app@, rows as int),
            ]);
        }
        Some(out)
    } else {
        let mid = cols / 2;
        let lbudget: usize = if mid >= 1 {
            (mid - 1) as usize
        } else {
            0
        };
        let rbudget: usize = mid as usize;
        if !pane_fits(&app.todos, app.show_number, todo_bullet(), lbudget) {
            return None;
        }
        if !pane_fits(&app.dones, app.show_number, done_bullet(), rbudget) {
            return None;
        }
        let is_todo = matches!(app.curr_tab, Tab::Todos);
        let mut out = render_header(app, cols);
        let ghost gheader = cmds_view(out@);
        let mut left = render_items(
            &app.todos,
            app.todos_idx,
            is_todo,
            app.show_number,
            todo_bullet(),
            lbudget,
            0,
        );
        let ghost gleft = cmds_view(left@);
        let mut right = render_items(
            &app.dones,
            app.dones_idx,
            !is_todo,
            app.show_number,
            done_bullet(),
            rbudget,
            mid,
        );
        let ghost gright = cmds_view(right@);
        out.append(&mut left);
        proof {
            assert(cmds_view(out@) =~= gheader + gleft);
        }
        out.append(&mut right);
        proof {
            assert(cmds_view(out@) =~= gheader + gleft + gright);
        }
        let st = render_status(app, rows);
        let ghost gst = st;
        out.push(st);
        proof {
            let prev = out@.drop_last();
            assert(out@ =~= prev.push(gst));
            lemma_cmds_view_push(prev, gst);
            assert(cmds_view(out@) =~= gheader + gleft + gright + seq![
                spec_status(app@, rows as int),
            ]);
        }
        Some(out)
    }
}

} // verus!
