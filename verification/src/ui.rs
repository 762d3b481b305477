//! What the screens say. Pure functions of the application state; the program
//! turns roles into colors and puts the lines on the terminal.

use vstd::prelude::*;

use crate::algorithm::registry;
use crate::app::App;
use crate::app_model::{choice_description, choice_name, picker, terminal, AppModel, MethodChoice, Screen};
use crate::device::{human, Disk, DiskModel, MediaKind};
use crate::engine::{erase_job_spec, JobReport, JobStatus, Phase, ProgressModel, ProgressSnapshot, ReportModel};
use crate::erase::{erase_run, EraseEventModel, EraseModel};
use crate::firmware::FirmwareMethod;
use crate::report::SessionModel;
use crate::safety::{gate_matches, GateModel, GateState};
use crate::speed::{duration_text, eta_of, fmt_duration, rounded_secs};
use crate::sysinfo::mem_text;
use crate::text::{chars_of, dec, push_dec, push_text, string_of};
use crate::theme::{
    is_ascii_glyph, is_safe_glyph, law_shown_text_is_safe, show_text, shown_text, spinner_spec, GlyphModel, Glyphs,
};

verus! {

/// What a piece of text is, which decides its color.
#[derive(Clone, Copy, Debug, PartialEq, Eq, Structural)]
pub enum Role {
    /// Bold accent: panel titles, the app name, the method name.
    Title,
    /// De-emphasized.
    Muted,
    /// Success.
    Good,
    /// Bold warning.
    Warn,
    /// Bold danger.
    Danger,
    /// A key cap in the hint bar.
    KeyHint,
    /// Accent.
    Accent,
    /// Brightest.
    Bright,
    /// Brightest, bold.
    BrightBold,
    /// Body text.
    Text,
    /// Unstyled.
    Plain,
}

/// A piece of text in one role.
#[derive(Debug)]
pub struct Span {
    pub text: String,
    pub role: Role,
}

/// A [`Span`], with its text as a sequence.
pub struct SpanModel {
    pub text: Seq<char>,
    pub role: Role,
}

impl View for Span {
    type V = SpanModel;

    open spec fn view(&self) -> SpanModel {
        SpanModel { text: self.text@, role: self.role }
    }
}

/// A line by the views of its spans.
pub open spec fn line_model(l: Seq<Span>) -> Seq<SpanModel> {
    l.map_values(|s: Span| s@)
}

/// Lines by their views.
pub open spec fn lines_model(v: Seq<Vec<Span>>) -> Seq<Seq<SpanModel>> {
    v.map_values(|l: Vec<Span>| line_model(l@))
}

/// A span.
pub open spec fn sp(text: Seq<char>, role: Role) -> SpanModel {
    SpanModel { text, role }
}

fn span(text: String, role: Role) -> (s: Span)
    ensures
        s@ == sp(text@, role),
{
    Span { text, role }
}

fn lit(text: &str, role: Role) -> (s: Span)
    ensures
        s@ == sp(text@, role),
{
    Span { text: text.to_owned(), role }
}

/// A line of one literal span.
fn lit_line(text: &str, role: Role) -> (l: Vec<Span>)
    ensures
        line_model(l@) == seq![sp(text@, role)],
{
    let l = vec![lit(text, role)];
    assert(line_model(l@) =~= seq![sp(text@, role)]);
    l
}

/// A line of one span.
fn one_span(text: String, role: Role) -> (l: Vec<Span>)
    ensures
        line_model(l@) == seq![sp(text@, role)],
{
    let ghost t = text@;
    let l = vec![span(text, role)];
    assert(line_model(l@) =~= seq![sp(t, role)]);
    l
}

fn add_line(v: &mut Vec<Vec<Span>>, l: Vec<Span>)
    ensures
        lines_model(final(v)@) == lines_model(old(v)@).push(line_model(l@)),
{
    let ghost before = v@;
    v.push(l);
    assert(lines_model(v@) =~= lines_model(before).push(line_model(l@)));
}

/// A line as a theme draws it.
pub open spec fn themed(l: Seq<SpanModel>, g: GlyphModel) -> Seq<SpanModel> {
    l.map_values(|s: SpanModel| sp(shown_text(s.text, g.fine_gauge), s.role))
}

/// Lines as a theme draws them.
pub open spec fn themed_lines(v: Seq<Seq<SpanModel>>, g: GlyphModel) -> Seq<Seq<SpanModel>> {
    v.map_values(|l: Seq<SpanModel>| themed(l, g))
}

fn theme_line(l: &Vec<Span>, g: &Glyphs) -> (r: Vec<Span>)
    ensures
        line_model(r@) == themed(line_model(l@), g@),
{
    let mut r: Vec<Span> = Vec::new();
    let mut i: usize = 0;
    while i < l.len()
        invariant
            i <= l@.len(),
            r@.len() == i,
            forall|k: int|
                0 <= k < i ==> (#[trigger] r@[k])@ == sp(
                    shown_text(l@[k].text@, g.fine_gauge),
                    l@[k].role,
                ),
        decreases l@.len() - i,
    {
        r.push(span(show_text(l[i].text.as_str(), g.fine_gauge), l[i].role));
        i += 1;
    }
    assert(line_model(r@) =~= themed(line_model(l@), g@));
    r
}

fn theme_lines(v: &Vec<Vec<Span>>, g: &Glyphs) -> (r: Vec<Vec<Span>>)
    ensures
        lines_model(r@) == themed_lines(lines_model(v@), g@),
{
    let mut r: Vec<Vec<Span>> = Vec::new();
    let mut i: usize = 0;
    while i < v.len()
        invariant
            i <= v@.len(),
            r@.len() == i,
            forall|k: int|
                0 <= k < i ==> line_model((#[trigger] r@[k])@) == themed(line_model(v@[k]@), g@),
        decreases v@.len() - i,
    {
        r.push(theme_line(&v[i], g));
        i += 1;
    }
    assert(lines_model(r@) =~= themed_lines(lines_model(v@), g@));
    r
}

/// Every glyph of every screen is safe to draw: it takes one column in every
/// font, and on the console it is ASCII.
pub proof fn law_every_glyph_is_one_column(
    v: Seq<Seq<SpanModel>>,
    g: GlyphModel,
    line: int,
    span: int,
    i: int,
)
    requires
        0 <= line < v.len(),
        0 <= span < v[line].len(),
        0 <= i < v[line][span].text.len(),
    ensures
        ({
            let t = themed_lines(v, g)[line][span].text;
            &&& t.len() == v[line][span].text.len()
            &&& is_safe_glyph(t[i], g.fine_gauge)
            &&& !g.fine_gauge ==> is_ascii_glyph(t[i])
        }),
{
    law_shown_text_is_safe(v[line][span].text, g.fine_gauge, i);
}

/// `n` blanks.
pub open spec fn blanks(n: int) -> Seq<char> {
    if n > 0 {
        Seq::new(n as nat, |i: int| ' ')
    } else {
        Seq::empty()
    }
}

/// A text padded with blanks on the right to a width.
pub open spec fn left_aligned(s: Seq<char>, width: int) -> Seq<char> {
    s + blanks(width - s.len())
}

/// A text padded with blanks on the left to a width.
pub open spec fn right_aligned(s: Seq<char>, width: int) -> Seq<char> {
    blanks(width - s.len()) + s
}

/// The first `n` characters of a text.
pub open spec fn shortened(s: Seq<char>, n: int) -> Seq<char> {
    if s.len() > n {
        s.take(n)
    } else {
        s
    }
}

fn push_blanks(s: &mut String, n: usize)
    ensures
        final(s)@ == old(s)@ + blanks(n as int),
{
    let ghost before = s@;
    let mut i: usize = 0;
    assert(s@ =~= before + blanks(0));
    while i < n
        invariant
            i <= n,
            s@ == before + blanks(i as int),
        decreases n - i,
    {
        s.push(' ');
        i += 1;
        assert(s@ =~= before + blanks(i as int));
    }
}

/// Appends a text, padded with blanks on the right to a width.
fn push_left(s: &mut String, t: &str, width: usize)
    ensures
        final(s)@ == old(s)@ + left_aligned(t@, width as int),
{
    let ghost before = s@;
    let n: usize = chars_of(t).len();
    push_text(s, t);
    if n < width {
        push_blanks(s, width - n);
    }
    assert(s@ =~= before + left_aligned(t@, width as int));
}

/// Appends a text, padded with blanks on the left to a width.
fn push_right(s: &mut String, t: &str, width: usize)
    ensures
        final(s)@ == old(s)@ + right_aligned(t@, width as int),
{
    let ghost before = s@;
    let n: usize = chars_of(t).len();
    if n < width {
        push_blanks(s, width - n);
    }
    push_text(s, t);
    assert(s@ =~= before + right_aligned(t@, width as int));
}

/// The first `n` characters of a text.
fn shorten(t: &str, n: usize) -> (s: String)
    ensures
        s@ == shortened(t@, n as int),
{
    let cs = chars_of(t);
    let k: usize = if cs.len() > n { n } else { cs.len() };
    let s = string_of(&cs, 0, k);
    assert(s@ =~= shortened(t@, n as int));
    s
}

// -- header ------------------------------------------------------------------

/// The left half of the header.
pub open spec fn header_left_spec(m: AppModel) -> Seq<SpanModel> {
    seq![
        sp("DBAN"@, Role::Title),
        sp("  secure disk sanitization"@, Role::Muted),
        sp(
            if m.simulation {
                "  [SIMULATION]"@
            } else {
                ""@
            },
            Role::Warn,
        ),
    ]
}

fn left_spans(app: &App) -> (l: Vec<Span>)
    ensures
        line_model(l@) == header_left_spec(app@),
{
    let l = vec![
        lit("DBAN", Role::Title),
        lit("  secure disk sanitization", Role::Muted),
        lit(if app.simulation { "  [SIMULATION]" } else { "" }, Role::Warn),
    ];
    assert(line_model(l@) =~= header_left_spec(app@));
    l
}

/// The left half of the header: the name, and whether disks are simulated.
pub fn header_left(app: &App, g: &Glyphs) -> (l: Vec<Span>)
    ensures
        line_model(l@) == themed(header_left_spec(app@), g@),
{
    theme_line(&left_spans(app), g)
}

/// The right half of the header: the host.
pub open spec fn header_right_spec(m: AppModel) -> Seq<char> {
    dec(m.sys.cpu_cores as nat) + " cores │ "@ + mem_text(m.sys.mem_total_bytes) + " │ "@ + m.sys.kernel
}

fn right_spans(app: &App) -> (l: Vec<Span>)
    ensures
        line_model(l@) == seq![sp(header_right_spec(app@), Role::Muted)],
{
    let mut s = String::new();
    push_dec(&mut s, app.sys.cpu_cores as u64);
    push_text(&mut s, " cores │ ");
    let mem = app.sys.mem_human();
    push_text(&mut s, mem.as_str());
    push_text(&mut s, " │ ");
    push_text(&mut s, app.sys.kernel.as_str());
    assert(s@ =~= header_right_spec(app@));
    one_span(s, Role::Muted)
}

/// The right half of the header: cores, memory and kernel of the host.
pub fn header_right(app: &App, g: &Glyphs) -> (l: Vec<Span>)
    ensures
        line_model(l@) == themed(seq![sp(header_right_spec(app@), Role::Muted)], g@),
{
    theme_line(&right_spans(app), g)
}

// -- disks -------------------------------------------------------------------

/// The heading of the disk table.
pub open spec fn disk_heading() -> Seq<char> {
    "    "@ + left_aligned("DEVICE"@, 11) + " "@ + left_aligned("MODEL"@, 28) + " "@ + right_aligned(
        "SIZE"@,
        9,
    ) + " "@ + left_aligned("BUS"@, 6) + " "@ + left_aligned("TYPE"@, 5) + " STATE"@
}

/// The mark of a disk: locked, selected or neither.
pub open spec fn disk_mark(m: AppModel, d: DiskModel, g: GlyphModel) -> SpanModel {
    if d.lock is Some {
        sp(g.locked, Role::Danger)
    } else if m.selected.contains(d.name) {
        sp(g.sel_on, Role::Danger)
    } else {
        sp(g.sel_off, Role::Muted)
    }
}

/// The state of a disk: why it is locked, whether it will be erased, or that
/// the method cannot erase it.
pub open spec fn disk_state(m: AppModel, d: DiskModel) -> SpanModel {
    match d.lock {
        Some(reason) => sp(reason.label_spec(), Role::Danger),
        None => if !m.selected.contains(d.name) {
            sp("ready"@, Role::Muted)
        } else if m.capable(d) {
            sp("WILL ERASE"@, Role::Danger)
        } else {
            sp("skip (n/a)"@, Role::Warn)
        },
    }
}

/// The columns of a disk.
pub open spec fn disk_columns(d: DiskModel) -> Seq<char> {
    left_aligned(d.name, 11) + " "@ + left_aligned(shortened(d.model, 28), 28) + " "@
        + right_aligned(human(d.size_bytes as nat), 9) + " "@ + left_aligned(d.bus.label_spec(), 6)
        + " "@ + left_aligned(d.kind.label_spec(), 5) + " "@
}

/// The row of disk `i`.
pub open spec fn disk_row_spec(m: AppModel, i: int, g: GlyphModel) -> Seq<SpanModel> {
    let d = m.disks[i];
    let here = i == m.cursor;
    seq![
        if here {
            sp(g.cursor, Role::Accent)
        } else {
            sp("  "@, Role::Plain)
        },
        disk_mark(m, d, g),
        sp(" "@, Role::Plain),
        sp(
            disk_columns(d),
            if here {
                Role::BrightBold
            } else {
                Role::Text
            },
        ),
        disk_state(m, d),
    ]
}

/// The disk table: a heading and a row per disk.
pub open spec fn disk_table_spec(m: AppModel, g: GlyphModel) -> Seq<Seq<SpanModel>> {
    seq![seq![sp(disk_heading(), Role::Muted)]] + Seq::new(
        m.disks.len(),
        |i: int| disk_row_spec(m, i, g),
    )
}

fn disk_row(app: &App, i: usize, g: &Glyphs) -> (l: Vec<Span>)
    requires
        app.wf(),
        i < app@.disks.len(),
    ensures
        line_model(l@) == disk_row_spec(app@, i as int, g@),
{
    let d = &app.disks[i];
    assert(app@.disks[i as int] == d@);
    let here = i == app.cursor;
    let chosen = crate::linux::is_listed(&app.selected, d.name.as_str());
    let mark = if d.is_locked() {
        lit(g.locked, Role::Danger)
    } else if chosen {
        lit(g.sel_on, Role::Danger)
    } else {
        lit(g.sel_off, Role::Muted)
    };
    let state = match d.lock {
        Some(reason) => lit(reason.label(), Role::Danger),
        None => if !chosen {
            lit("ready", Role::Muted)
        } else if app.disk_supports_current(d) {
            lit("WILL ERASE", Role::Danger)
        } else {
            lit("skip (n/a)", Role::Warn)
        },
    };
    let mut s = String::new();
    push_left(&mut s, d.name.as_str(), 11);
    push_text(&mut s, " ");
    let model = shorten(d.model.as_str(), 28);
    push_left(&mut s, model.as_str(), 28);
    push_text(&mut s, " ");
    let size = d.size_human();
    push_right(&mut s, size.as_str(), 9);
    push_text(&mut s, " ");
    push_left(&mut s, d.bus.label(), 6);
    push_text(&mut s, " ");
    push_left(&mut s, d.kind.label(), 5);
    push_text(&mut s, " ");
    assert(s@ =~= disk_columns(d@));
    let l = vec![
        if here { lit(g.cursor, Role::Accent) } else { lit("  ", Role::Plain) },
        mark,
        lit(" ", Role::Plain),
        span(s, if here { Role::BrightBold } else { Role::Text }),
        state,
    ];
    assert(line_model(l@) =~= disk_row_spec(app@, i as int, g@));
    l
}

fn table_lines(app: &App, g: &Glyphs) -> (v: Vec<Vec<Span>>)
    requires
        app.wf(),
    ensures
        lines_model(v@) == disk_table_spec(app@, g@),
{
    let mut s = "    ".to_owned();
    push_left(&mut s, "DEVICE", 11);
    push_text(&mut s, " ");
    push_left(&mut s, "MODEL", 28);
    push_text(&mut s, " ");
    push_right(&mut s, "SIZE", 9);
    push_text(&mut s, " ");
    push_left(&mut s, "BUS", 6);
    push_text(&mut s, " ");
    push_left(&mut s, "TYPE", 5);
    push_text(&mut s, " STATE");
    assert(s@ =~= disk_heading());
    let mut v: Vec<Vec<Span>> = Vec::new();
    add_line(&mut v, one_span(s, Role::Muted));
    let mut i: usize = 0;
    assert(lines_model(v@) =~= disk_table_spec(app@, g@).take(1));
    while i < app.disks.len()
        invariant
            app.wf(),
            i <= app.disks@.len(),
            app@.disks.len() == app.disks@.len(),
            lines_model(v@) == disk_table_spec(app@, g@).take(i + 1),
        decreases app.disks@.len() - i,
    {
        add_line(&mut v, disk_row(app, i, g));
        i += 1;
        assert(lines_model(v@) =~= disk_table_spec(app@, g@).take(i + 1));
    }
    assert(disk_table_spec(app@, g@).take(i + 1) =~= disk_table_spec(app@, g@));
    v
}

/// The disk table: a heading and a row per disk. Where there is no disk, the
/// program shows [`NO_DISKS`] instead.
pub fn draw_disks(app: &App, g: &Glyphs) -> (v: Vec<Vec<Span>>)
    requires
        app.wf(),
    ensures
        lines_model(v@) == themed_lines(disk_table_spec(app@, g@), g@),
{
    theme_lines(&table_lines(app, g), g)
}

/// What the disks screen says where there is no disk.
pub const NO_DISKS: &'static str = "No eligible disks detected. Press r to rescan.";

// -- method panel ------------------------------------------------------------

/// The options of an overwrite.
pub open spec fn options_line(m: AppModel) -> Seq<SpanModel> {
    seq![
        sp("verify "@, Role::Muted),
        sp("["@ + m.verify.label_spec() + "]"@, Role::Accent),
        sp("  rounds "@, Role::Muted),
        sp("["@ + dec(m.rounds as nat) + "]"@, Role::Accent),
        sp("  final blank "@, Role::Muted),
        sp(
            if m.final_blank {
                "[on]"@
            } else {
                "[off]"@
            },
            Role::Accent,
        ),
        sp(
            "    "@ + dec(m.spec()->0.plan().len()) + " write pass(es)"@,
            Role::Muted,
        ),
    ]
}

/// The advice on flash media.
pub open spec fn ssd_advice() -> Seq<char> {
    "! SSD selected: overwrites cannot reach over-provisioned cells. \
             For flash, firmware Secure Erase / crypto-erase is the NIST-purge method."@
}

/// Whether a selected disk is flash.
pub open spec fn flash_selected(m: AppModel) -> bool {
    exists|i: int|
        0 <= i < m.selected_disks().len() && (#[trigger] m.selected_disks()[i]).kind
            == MediaKind::Ssd
}

/// The first line of the method panel: the method, its place among all methods,
/// and for an overwrite its passes and whether it is recommended.
pub open spec fn method_line(m: AppModel) -> Seq<SpanModel> {
    let head = seq![
        sp("‹ "@, Role::Muted),
        sp(choice_name(m.method()), Role::Title),
        sp(
            " ›   "@ + dec((m.method_idx + 1) as nat) + "/"@ + dec(picker().len()) + "   "@,
            Role::Muted,
        ),
    ];
    match m.method() {
        MethodChoice::Overwrite(i) => head + seq![
            sp(dec(registry()[i as int].passes.len()) + " pass(es)"@, Role::Muted),
            if registry()[i as int].recommended {
                sp("    RECOMMENDED"@, Role::Good)
            } else {
                sp(""@, Role::Plain)
            },
        ],
        MethodChoice::Firmware(_) => head,
    }
}

/// The method panel.
pub open spec fn panel_spec(m: AppModel) -> Seq<Seq<SpanModel>> {
    let top = seq![method_line(m), seq![sp(choice_description(m.method()), Role::Muted)]];
    let options = if m.method() is Overwrite {
        top.push(options_line(m))
    } else {
        top
    };
    if flash_selected(m) {
        options.push(seq![sp(ssd_advice(), Role::Warn)])
    } else {
        options
    }
}

fn bracketed(t: &str) -> (s: String)
    ensures
        s@ == "["@ + t@ + "]"@,
{
    let mut s = "[".to_owned();
    push_text(&mut s, t);
    push_text(&mut s, "]");
    s
}

fn any_flash(app: &App) -> (b: bool)
    ensures
        b == flash_selected(app@),
{
    let v = app.selected_disks();
    let ghost all = app@.selected_disks();
    assert(v@.map_values(|d: &Disk| d@).len() == v@.len());
    let mut i: usize = 0;
    while i < v.len()
        invariant
            i <= v@.len(),
            v@.map_values(|d: &Disk| d@) == all,
            all.len() == v@.len(),
            all == app@.selected_disks(),
            forall|k: int| 0 <= k < i ==> (#[trigger] all[k]).kind != MediaKind::Ssd,
        decreases v@.len() - i,
    {
        assert(all[i as int] == v@.map_values(|d: &Disk| d@)[i as int]);
        assert(all[i as int] == v@[i as int]@);
        if v[i].kind == MediaKind::Ssd {
            return true;
        }
        i += 1;
    }
    false
}

fn method_spans(app: &App) -> (l: Vec<Span>)
    requires
        app.wf(),
    ensures
        line_model(l@) == method_line(app@),
{
    let mut place = " ›   ".to_owned();
    push_dec(&mut place, app.method_idx as u64 + 1);
    push_text(&mut place, "/");
    push_dec(&mut place, app.methods.len() as u64);
    push_text(&mut place, "   ");
    assert(place@ =~= " ›   "@ + dec((app@.method_idx + 1) as nat) + "/"@ + dec(picker().len())
        + "   "@);
    let mut l = vec![
        lit("‹ ", Role::Muted),
        lit(app.method_name(), Role::Title),
        span(place, Role::Muted),
    ];
    match app.current_scheme() {
        Some(scheme) => {
            let mut s = String::new();
            push_dec(&mut s, scheme.pass_count() as u64);
            push_text(&mut s, " pass(es)");
            assert(s@ =~= dec(scheme@.passes.len()) + " pass(es)"@);
            l.push(span(s, Role::Muted));
            l.push(
                if scheme.recommended {
                    lit("    RECOMMENDED", Role::Good)
                } else {
                    lit("", Role::Plain)
                },
            );
        },
        None => {},
    }
    assert(line_model(l@) =~= method_line(app@));
    l
}

fn option_spans(app: &App) -> (l: Vec<Span>)
    requires
        app.wf(),
        app@.method() is Overwrite,
    ensures
        line_model(l@) == options_line(app@),
{
    let passes: usize = match app.spec() {
        Some(spec) => {
            let list = spec.pass_list();
            assert(list@.len() == app@.spec()->0.plan().len());
            list.len()
        },
        None => 0,
    };
    let mut rounds = String::new();
    push_dec(&mut rounds, app.rounds as u64);
    assert(rounds@ =~= dec(app.rounds as nat));
    let mut total = "    ".to_owned();
    push_dec(&mut total, passes as u64);
    push_text(&mut total, " write pass(es)");
    let l = vec![
        lit("verify ", Role::Muted),
        span(bracketed(app.verify.label()), Role::Accent),
        lit("  rounds ", Role::Muted),
        span(bracketed(rounds.as_str()), Role::Accent),
        lit("  final blank ", Role::Muted),
        lit(if app.final_blank { "[on]" } else { "[off]" }, Role::Accent),
        span(total, Role::Muted),
    ];
    assert(line_model(l@) =~= options_line(app@));
    l
}

fn panel_lines(app: &App) -> (v: Vec<Vec<Span>>)
    requires
        app.wf(),
    ensures
        lines_model(v@) == panel_spec(app@),
{
    let mut v: Vec<Vec<Span>> = Vec::new();
    add_line(&mut v, method_spans(app));
    add_line(&mut v, lit_line(app.method_description(), Role::Muted));
    assert(lines_model(v@) =~= seq![
        method_line(app@),
        seq![sp(choice_description(app@.method()), Role::Muted)],
    ]);
    if !app.is_firmware() {
        add_line(&mut v, option_spans(app));
    }
    // SSD advisory when any selected disk is flash.
    if any_flash(app) {
        add_line(
            &mut v,
            lit_line(
                "! SSD selected: overwrites cannot reach over-provisioned cells. \
             For flash, firmware Secure Erase / crypto-erase is the NIST-purge method.",
                Role::Warn,
            ),
        );
    }
    v
}

/// The method panel: the method, its description, the options of an overwrite,
/// and advice when a selected disk is flash.
pub fn draw_scheme_panel(app: &App, g: &Glyphs) -> (v: Vec<Vec<Span>>)
    requires
        app.wf(),
    ensures
        lines_model(v@) == themed_lines(panel_spec(app@), g@),
{
    theme_lines(&panel_lines(app), g)
}

// -- confirm -----------------------------------------------------------------

/// The line of a disk that will be erased.
pub open spec fn doomed_line(d: DiskModel) -> Seq<SpanModel> {
    seq![
        sp("    x "@, Role::Danger),
        sp(
            left_aligned(d.name, 11) + " "@ + left_aligned(d.model, 26) + " "@ + right_aligned(
                human(d.size_bytes as nat),
                9,
            ),
            Role::Bright,
        ),
    ]
}

/// What will be done to the disks.
pub open spec fn method_summary(m: AppModel) -> Seq<char> {
    match m.spec() {
        Some(spec) => "Method: "@ + spec.scheme.name + " │ "@ + dec(spec.plan().len())
            + " write pass(es) │ verify "@ + spec.verify.label_spec(),
        None => "Method: "@ + choice_name(m.method()),
    }
}

/// Milliseconds in whole seconds, rounded up.
pub open spec fn ceil_secs(ms: nat) -> nat {
    (ms + 999) / 1000
}

/// The last lines of the confirm screen: the countdown, or the phrase and what
/// has been typed of it.
pub open spec fn gate_lines(g: GateModel) -> Seq<Seq<SpanModel>> {
    match g.state {
        GateState::Countdown(ms) => seq![
            seq![
                sp("Starting in "@, Role::Warn),
                sp(dec(ceil_secs(ms)), Role::Danger),
                sp("s - press ANY key to ABORT."@, Role::Warn),
            ],
        ],
        _ => {
            let typed = match g.state {
                GateState::Typing(t) => t,
                _ => Seq::empty(),
            };
            let matched = gate_matches(g);
            seq![
                seq![
                    sp("Type "@, Role::Muted),
                    sp("\""@ + g.phrase + "\""@, Role::Warn),
                    sp(" then Enter to confirm, Esc to cancel."@, Role::Muted),
                ],
                seq![
                    sp("  > "@, Role::Muted),
                    sp(
                        typed,
                        if matched {
                            Role::Good
                        } else {
                            Role::Bright
                        },
                    ),
                    sp(
                        if matched {
                            "  OK"@
                        } else {
                            ""@
                        },
                        Role::Good,
                    ),
                ],
            ]
        },
    }
}

/// An empty line.
pub open spec fn empty_line() -> Seq<SpanModel> {
    seq![sp(""@, Role::Plain)]
}

/// The confirm screen of a running ceremony.
pub open spec fn confirm_spec(m: AppModel, g: GateModel) -> Seq<Seq<SpanModel>> {
    seq![
        seq![
            sp(
                "The following disks will be PERMANENTLY and IRRECOVERABLY erased:"@,
                Role::Warn,
            ),
        ],
        empty_line(),
    ] + m.targets().map_values(|d: DiskModel| doomed_line(d)) + seq![
        empty_line(),
        seq![sp(method_summary(m), Role::Muted)],
        empty_line(),
    ] + gate_lines(g)
}

fn doomed_spans(d: &Disk) -> (l: Vec<Span>)
    ensures
        line_model(l@) == doomed_line(d@),
{
    let mut s = String::new();
    push_left(&mut s, d.name.as_str(), 11);
    push_text(&mut s, " ");
    push_left(&mut s, d.model.as_str(), 26);
    push_text(&mut s, " ");
    let size = d.size_human();
    push_right(&mut s, size.as_str(), 9);
    assert(s@ =~= left_aligned(d.name@, 11) + " "@ + left_aligned(d.model@, 26) + " "@
        + right_aligned(human(d.size_bytes as nat), 9));
    let l = vec![lit("    x ", Role::Danger), span(s, Role::Bright)];
    assert(line_model(l@) =~= doomed_line(d@));
    l
}

fn method_text(app: &App) -> (s: String)
    requires
        app.wf(),
    ensures
        s@ == method_summary(app@),
{
    let mut s = "Method: ".to_owned();
    match app.spec() {
        Some(spec) => {
            push_text(&mut s, spec.scheme.name);
            push_text(&mut s, " │ ");
            let list = spec.pass_list();
            assert(list@.len() == spec@.plan().len());
            push_dec(&mut s, list.len() as u64);
            push_text(&mut s, " write pass(es) │ verify ");
            push_text(&mut s, spec.verify.label());
        },
        None => {
            push_text(&mut s, app.method_name());
        },
    }
    s
}

/// Adds the last lines of the confirm screen.
fn add_gate_lines(v: &mut Vec<Vec<Span>>, gate: &crate::safety::SafetyGate)
    ensures
        lines_model(final(v)@) == lines_model(old(v)@) + gate_lines(gate@),
{
    let ghost before = lines_model(v@);
    match gate.countdown_remaining_ms() {
        Some(remaining) => {
            let secs: u64 = remaining / 1000 + if remaining % 1000 > 0 { 1 } else { 0 };
            let mut n = String::new();
            push_dec(&mut n, secs);
            assert(n@ =~= dec(ceil_secs(remaining as nat)));
            let l = vec![
                lit("Starting in ", Role::Warn),
                span(n, Role::Danger),
                lit("s - press ANY key to ABORT.", Role::Warn),
            ];
            assert(line_model(l@) =~= gate_lines(gate@)[0]);
            add_line(v, l);
            assert(lines_model(v@) =~= before + gate_lines(gate@));
        },
        None => {
            let matched = gate.phrase_matches();
            let mut quoted = "\"".to_owned();
            push_text(&mut quoted, gate.phrase());
            push_text(&mut quoted, "\"");
            let a = vec![
                lit("Type ", Role::Muted),
                span(quoted, Role::Warn),
                lit(" then Enter to confirm, Esc to cancel.", Role::Muted),
            ];
            assert(line_model(a@) =~= gate_lines(gate@)[0]);
            let b = vec![
                lit("  > ", Role::Muted),
                lit(gate.typed(), if matched { Role::Good } else { Role::Bright }),
                lit(if matched { "  OK" } else { "" }, Role::Good),
            ];
            assert(line_model(b@) =~= gate_lines(gate@)[1]);
            add_line(v, a);
            add_line(v, b);
            assert(lines_model(v@) =~= before + gate_lines(gate@));
        },
    }
}

fn confirm_lines(app: &App) -> (r: Option<Vec<Vec<Span>>>)
    requires
        app.wf(),
    ensures
        r is Some <==> app@.gate is Some,
        r matches Some(v) ==> lines_model(v@) == confirm_spec(app@, app@.gate->0),
{
    let gate = match &app.gate {
        Some(g) => g,
        None => {
            return None;
        },
    };
    let mut v: Vec<Vec<Span>> = Vec::new();
    add_line(
        &mut v,
        lit_line(
            "The following disks will be PERMANENTLY and IRRECOVERABLY erased:",
            Role::Warn,
        ),
    );
    add_line(&mut v, lit_line("", Role::Plain));
    let ghost top = lines_model(v@);
    let targets = app.target_disks();
    let ghost all = app@.targets();
    assert(targets@.map_values(|d: &Disk| d@).len() == targets@.len());
    let ghost rows = all.map_values(|d: DiskModel| doomed_line(d));
    let mut i: usize = 0;
    assert(lines_model(v@) =~= top + rows.take(0));
    while i < targets.len()
        invariant
            i <= targets@.len(),
            targets@.map_values(|d: &Disk| d@) == all,
            all.len() == targets@.len(),
            rows == all.map_values(|d: DiskModel| doomed_line(d)),
            lines_model(v@) == top + rows.take(i as int),
        decreases targets@.len() - i,
    {
        assert(all[i as int] == targets@.map_values(|d: &Disk| d@)[i as int]);
        assert(all[i as int] == targets@[i as int]@);
        add_line(&mut v, doomed_spans(targets[i]));
        i += 1;
        assert(lines_model(v@) =~= top + rows.take(i as int));
    }
    assert(rows.take(i as int) =~= rows);
    add_line(&mut v, lit_line("", Role::Plain));
    add_line(&mut v, one_span(method_text(app), Role::Muted));
    add_line(&mut v, lit_line("", Role::Plain));
    add_gate_lines(&mut v, gate);
    assert(lines_model(v@) =~= confirm_spec(app@, app@.gate->0));
    Some(v)
}

/// The confirm screen: the disks that will be erased, the method, and where the
/// arming ceremony stands. Nothing where no ceremony is running.
pub fn draw_confirm(app: &App, g: &Glyphs) -> (r: Option<Vec<Vec<Span>>>)
    requires
        app.wf(),
    ensures
        r is Some <==> app@.gate is Some,
        r matches Some(v) ==> lines_model(v@) == themed_lines(
            confirm_spec(app@, app@.gate->0),
            g@,
        ),
{
    match confirm_lines(app) {
        Some(v) => Some(theme_lines(&v, g)),
        None => None,
    }
}

// -- wiping ------------------------------------------------------------------

/// The color of a job's gauge.
pub open spec fn phase_role(p: Phase) -> Role {
    match p {
        Phase::Done => Role::Good,
        Phase::Failed => Role::Danger,
        Phase::Cancelled => Role::Warn,
        _ => Role::Accent,
    }
}

/// The sign of a job: a plus when done, a cross when failed, a ring when
/// cancelled, or else the spinner.
pub open spec fn phase_glyph(p: Phase, fancy: bool, frame: int) -> Seq<char> {
    match p {
        Phase::Done => "+"@,
        Phase::Failed => "x"@,
        Phase::Cancelled => "o"@,
        _ => spinner_spec(fancy, frame),
    }
}

/// The time that a job will still take, as shown.
pub open spec fn eta_text(m: AppModel, i: int) -> Seq<char> {
    let p = m.jobs[i].progress;
    match eta_of(m.trackers[i], p.work_done as nat, p.work_total as nat) {
        Some(ns) => if terminal(p.phase) {
            "-"@
        } else {
            duration_text(rounded_secs(ns))
        },
        None => "-"@,
    }
}

/// The line of job `i`; `speed` is its throughput as shown.
pub open spec fn job_line_spec(m: AppModel, i: int, g: GlyphModel, speed: Seq<char>) -> Seq<
    SpanModel,
> {
    let p = m.jobs[i].progress;
    seq![
        sp(
            (if i == m.cursor {
                g.cursor
            } else {
                "  "@
            }) + phase_glyph(p.phase, g.fine_gauge, m.spinner_frame as int) + " "@,
            Role::Accent,
        ),
        sp(left_aligned(m.jobs[i].disk.name, 11) + " "@, Role::BrightBold),
        sp("pass "@ + dec(p.pass_index as nat) + "/"@ + dec(p.pass_count as nat) + " "@, Role::Muted),
        sp(left_aligned(p.pass_label, 14) + " "@, Role::Accent),
        sp(p.phase.label_spec(), phase_role(p.phase)),
        sp("   "@ + speed + "   ETA "@ + eta_text(m, i), Role::Muted),
    ]
}

fn role_of_phase(p: Phase) -> (r: Role)
    ensures
        r == phase_role(p),
{
    match p {
        Phase::Done => Role::Good,
        Phase::Failed => Role::Danger,
        Phase::Cancelled => Role::Warn,
        _ => Role::Accent,
    }
}

fn glyph_of_phase(p: Phase, g: &Glyphs, frame: usize) -> (s: &'static str)
    ensures
        s@ == phase_glyph(p, g.fine_gauge, frame as int),
{
    match p {
        Phase::Done => "+",
        Phase::Failed => "x",
        Phase::Cancelled => "o",
        _ => g.spinner(frame),
    }
}

fn eta_string(app: &App, i: usize) -> (s: String)
    requires
        app.wf(),
        i < app@.jobs.len(),
    ensures
        s@ == eta_text(app@, i as int),
{
    let snap = app.jobs[i].snapshot();
    proof {
        assert(app@.jobs[i as int] == app.jobs@[i as int]@);
        assert(app@.trackers[i as int] == app.trackers@[i as int]@);
    }
    match app.trackers[i].eta(snap.work_done, snap.work_total) {
        Some(ns) => if snap.phase.is_terminal() {
            "-".to_owned()
        } else {
            fmt_duration(ns)
        },
        None => "-".to_owned(),
    }
}

fn job_spans(app: &App, i: usize, g: &Glyphs, speed: &str) -> (l: Vec<Span>)
    requires
        app.wf(),
        i < app@.jobs.len(),
    ensures
        line_model(l@) == job_line_spec(app@, i as int, g@, speed@),
{
    let job = &app.jobs[i];
    let snap = job.snapshot();
    proof {
        assert(app@.jobs[i as int] == app.jobs@[i as int]@);
    }
    let mut lead = if i == app.cursor { g.cursor.to_owned() } else { "  ".to_owned() };
    push_text(&mut lead, glyph_of_phase(snap.phase, g, app.spinner_frame));
    push_text(&mut lead, " ");
    let mut name = String::new();
    push_left(&mut name, job.name(), 11);
    push_text(&mut name, " ");
    let mut pass = "pass ".to_owned();
    push_dec(&mut pass, snap.pass_index as u64);
    push_text(&mut pass, "/");
    push_dec(&mut pass, snap.pass_count as u64);
    push_text(&mut pass, " ");
    let mut label = String::new();
    push_left(&mut label, snap.pass_label.as_str(), 14);
    push_text(&mut label, " ");
    let mut tail = "   ".to_owned();
    push_text(&mut tail, speed);
    push_text(&mut tail, "   ETA ");
    let eta = eta_string(app, i);
    push_text(&mut tail, eta.as_str());
    proof {
        assert(name@ =~= left_aligned(job@.disk.name, 11) + " "@);
        assert(label@ =~= left_aligned(snap@.pass_label, 14) + " "@);
    }
    let l = vec![
        span(lead, Role::Accent),
        span(name, Role::BrightBold),
        span(pass, Role::Muted),
        span(label, Role::Accent),
        lit(snap.phase.label(), role_of_phase(snap.phase)),
        span(tail, Role::Muted),
    ];
    assert(line_model(l@) =~= job_line_spec(app@, i as int, g@, speed@));
    l
}

/// The line of job `i` on the wiping screen: where the cursor is, the disk, its
/// pass and phase, the throughput `speed`, and the time that it will still take.
pub fn draw_wiping(app: &App, i: usize, g: &Glyphs, speed: &str) -> (l: Vec<Span>)
    requires
        app.wf(),
        i < app@.jobs.len(),
    ensures
        line_model(l@) == themed(job_line_spec(app@, i as int, g@, speed@), g@),
{
    theme_line(&job_spans(app, i, g, speed), g)
}

/// Whether a job that is under way reports no progress, so that its gauge pulses
/// in place of a percentage.
pub open spec fn pulsing(p: ProgressModel) -> bool {
    p.indeterminate && !terminal(p.phase) && p.error is None
}

/// The label of the gauge of a job: its error, that it is in progress, or the
/// percentage `percent`.
pub open spec fn gauge_label(p: ProgressModel, percent: Seq<char>) -> Seq<char> {
    match p.error {
        Some(e) => e,
        None => if pulsing(p) {
            "in progress"@
        } else {
            percent
        },
    }
}

fn pulses(snap: &ProgressSnapshot) -> (b: bool)
    ensures
        b == pulsing(snap@),
{
    snap.indeterminate && !snap.phase.is_terminal() && snap.error.is_none()
}

/// The label and the color of the gauge of job `i`: its error, that it is in
/// progress where the drive reports no more, or else the percentage `percent`.
pub fn gauge(app: &App, i: usize, g: &Glyphs, percent: &str) -> (r: (String, Role))
    requires
        i < app@.jobs.len(),
    ensures
        r.0@ == shown_text(gauge_label(app@.jobs[i as int].progress, percent@), g.fine_gauge),
        r.1 == phase_role(app@.jobs[i as int].progress.phase),
{
    let snap = app.jobs[i].snapshot();
    proof {
        assert(app@.jobs[i as int] == app.jobs@[i as int]@);
    }
    let label = match &snap.error {
        Some(e) => show_text(e.as_str(), g.fine_gauge),
        None => if pulses(snap) {
            show_text("in progress", g.fine_gauge)
        } else {
            show_text(percent, g.fine_gauge)
        },
    };
    (label, role_of_phase(snap.phase))
}

/// How many steps the gauge of a pulsing job takes to fill.
pub const PULSE_STEPS: usize = 20;

/// How many of its [`PULSE_STEPS`] the pulse of job `i` shows now; nothing where
/// the gauge shows how much of the work is done.
pub fn pulse(app: &App, i: usize) -> (r: Option<usize>)
    requires
        i < app@.jobs.len(),
    ensures
        r == (if pulsing(app@.jobs[i as int].progress) {
            Some((app@.spinner_frame % PULSE_STEPS) as usize)
        } else {
            None
        }),
{
    proof {
        assert(app@.jobs[i as int] == app.jobs@[i as int]@);
    }
    if pulses(app.jobs[i].snapshot()) {
        Some(app.spinner_frame % PULSE_STEPS)
    } else {
        None
    }
}

/// On real hardware the gauge of a firmware erase pulses from its beginning until
/// it is closed; that of a simulated erase shows a percentage.
pub proof fn law_real_erases_pulse(
    disk: DiskModel,
    method: FirmwareMethod,
    events: Seq<(EraseEventModel, bool)>,
)
    ensures
        pulsing(erase_run(erase_job_spec(disk, method), events).progress) == !disk.simulated,
{
    lemma_erase_progress(erase_job_spec(disk, method), events);
}

proof fn lemma_erase_progress(j: EraseModel, events: Seq<(EraseEventModel, bool)>)
    ensures
        ({
            let p = erase_run(j, events).progress;
            &&& p.indeterminate == j.progress.indeterminate
            &&& p.error == j.progress.error
            &&& p.phase == Phase::Writing
        }),
    decreases events.len(),
{
    if events.len() > 0 {
        lemma_erase_progress(j, events.drop_last());
    }
}

// -- summary -----------------------------------------------------------------

/// The color of an outcome.
pub open spec fn status_role(s: JobStatus) -> Role {
    match s {
        JobStatus::Success => Role::Good,
        JobStatus::Cancelled => Role::Warn,
        _ => Role::Danger,
    }
}

/// How many passes of an overwrite were completed. A firmware erase has none.
pub open spec fn passes_text(j: ReportModel) -> Seq<char> {
    if j.firmware {
        ""@
    } else {
        dec(j.passes_completed as nat) + "/"@ + dec(j.pass_count as nat) + " passes │ "@
    }
}

/// The line of a finished job; `speed` is its average throughput in MB/s.
pub open spec fn report_line(j: ReportModel, speed: Seq<char>) -> Seq<SpanModel> {
    seq![
        sp("  "@ + left_aligned(j.disk_name, 11) + " "@, Role::Bright),
        sp(left_aligned(shortened(j.disk_model, 26), 26) + " "@, Role::Muted),
        sp(right_aligned(j.status.label_spec(), 10) + " "@, status_role(j.status)),
        sp(
            j.method_name + " │ "@ + passes_text(j) + duration_text(
                rounded_secs(j.duration_ns as nat),
            ) + " │ "@ + speed + " MB/s"@,
            Role::Muted,
        ),
    ]
}

/// The lines of a finished job: its outcome, and its error if it has one.
pub open spec fn report_lines(j: ReportModel, speed: Seq<char>) -> Seq<Seq<SpanModel>> {
    match j.error {
        Some(e) => seq![report_line(j, speed), seq![sp("      └ "@ + e, Role::Danger)]],
        None => seq![report_line(j, speed)],
    }
}

/// The lines of the first `n` jobs.
pub open spec fn reports_lines(jobs: Seq<ReportModel>, speeds: Seq<Seq<char>>, n: nat) -> Seq<
    Seq<SpanModel>,
>
    decreases n,
{
    if n == 0 {
        Seq::empty()
    } else {
        reports_lines(jobs, speeds, (n - 1) as nat) + report_lines(jobs[n - 1], speeds[n - 1])
    }
}

/// The summary screen of a session.
pub open spec fn summary_spec(m: AppModel, r: SessionModel, speeds: Seq<Seq<char>>) -> Seq<
    Seq<SpanModel>,
> {
    reports_lines(r.jobs, speeds, r.jobs.len()).push(empty_line()).push(
        match m.saved_report_path {
            Some(path) => seq![sp("Report written: "@ + path, Role::Good)],
            None => seq![sp("Press w to write a signed JSON erasure report."@, Role::Muted)],
        },
    )
}

fn report_spans(j: &JobReport, speed: &str) -> (l: Vec<Span>)
    ensures
        line_model(l@) == report_line(j@, speed@),
{
    let mut name = "  ".to_owned();
    push_left(&mut name, j.disk_name.as_str(), 11);
    push_text(&mut name, " ");
    let short = shorten(j.disk_model.as_str(), 26);
    let mut model = String::new();
    push_left(&mut model, short.as_str(), 26);
    push_text(&mut model, " ");
    let mut status = String::new();
    push_right(&mut status, j.status.label(), 10);
    push_text(&mut status, " ");
    let mut rest = j.method_name.clone();
    push_text(&mut rest, " │ ");
    if !j.firmware {
        push_dec(&mut rest, j.passes_completed as u64);
        push_text(&mut rest, "/");
        push_dec(&mut rest, j.pass_count as u64);
        push_text(&mut rest, " passes │ ");
    }
    assert(rest@ =~= j@.method_name + " │ "@ + passes_text(j@)) by {
        reveal_strlit("");
    }
    let took = fmt_duration(j.duration_ns as u128);
    push_text(&mut rest, took.as_str());
    push_text(&mut rest, " │ ");
    push_text(&mut rest, speed);
    push_text(&mut rest, " MB/s");
    proof {
        assert(model@ =~= left_aligned(shortened(j.disk_model@, 26), 26) + " "@);
        assert(status@ =~= right_aligned(j.status.label_spec(), 10) + " "@);
    }
    let role = match j.status {
        JobStatus::Success => Role::Good,
        JobStatus::Cancelled => Role::Warn,
        _ => Role::Danger,
    };
    let l = vec![
        span(name, Role::Bright),
        span(model, Role::Muted),
        span(status, role),
        span(rest, Role::Muted),
    ];
    assert(line_model(l@) =~= report_line(j@, speed@));
    l
}

fn summary_lines(app: &App, speeds: &Vec<String>) -> (r: Option<Vec<Vec<Span>>>)
    requires
        app.session_report matches Some(rep) ==> speeds@.len() == rep.jobs@.len(),
    ensures
        r is Some <==> app@.session_report is Some,
        r matches Some(v) ==> lines_model(v@) == summary_spec(
            app@,
            app@.session_report->0,
            crate::scan::texts(speeds@),
        ),
{
    let rep = match &app.session_report {
        Some(x) => x,
        None => {
            return None;
        },
    };
    let ghost jobs = rep@.jobs;
    let ghost sp_texts = crate::scan::texts(speeds@);
    let mut v: Vec<Vec<Span>> = Vec::new();
    let mut i: usize = 0;
    assert(lines_model(v@) =~= reports_lines(jobs, sp_texts, 0));
    while i < rep.jobs.len()
        invariant
            i <= rep.jobs@.len(),
            speeds@.len() == rep.jobs@.len(),
            jobs == rep@.jobs,
            sp_texts == crate::scan::texts(speeds@),
            lines_model(v@) == reports_lines(jobs, sp_texts, i as nat),
        decreases rep.jobs@.len() - i,
    {
        let ghost before = lines_model(v@);
        let j = &rep.jobs[i];
        assert(jobs[i as int] == j@);
        assert(sp_texts[i as int] == speeds@[i as int]@);
        add_line(&mut v, report_spans(j, speeds[i].as_str()));
        match &j.error {
            Some(e) => {
                let mut s = "      └ ".to_owned();
                push_text(&mut s, e.as_str());
                add_line(&mut v, one_span(s, Role::Danger));
            },
            None => {},
        }
        assert(lines_model(v@) =~= before + report_lines(jobs[i as int], sp_texts[i as int]));
        i += 1;
    }
    add_line(&mut v, lit_line("", Role::Plain));
    match &app.saved_report_path {
        Some(path) => {
            let mut s = "Report written: ".to_owned();
            push_text(&mut s, path.as_str());
            add_line(&mut v, one_span(s, Role::Good));
        },
        None => {
            add_line(
                &mut v,
                lit_line("Press w to write a signed JSON erasure report.", Role::Muted),
            );
        },
    }
    Some(v)
}

/// The summary screen: a line per job, its error if it has one, and where the
/// report was written. `speeds` are the average throughputs in MB/s. Nothing
/// where no session has ended.
pub fn draw_summary(app: &App, g: &Glyphs, speeds: &Vec<String>) -> (r: Option<Vec<Vec<Span>>>)
    requires
        app.session_report matches Some(rep) ==> speeds@.len() == rep.jobs@.len(),
    ensures
        r is Some <==> app@.session_report is Some,
        r matches Some(v) ==> lines_model(v@) == themed_lines(
            summary_spec(app@, app@.session_report->0, crate::scan::texts(speeds@)),
            g@,
        ),
{
    match summary_lines(app, speeds) {
        Some(v) => Some(theme_lines(&v, g)),
        None => None,
    }
}

/// The title of the summary screen and its color.
pub fn summary_title(all_succeeded: bool) -> (r: (&'static str, Role))
    ensures
        r.0@ == (if all_succeeded {
            " Complete "@
        } else {
            " Completed with issues "@
        }),
        r.1 == (if all_succeeded {
            Role::Good
        } else {
            Role::Danger
        }),
{
    if all_succeeded {
        (" Complete ", Role::Good)
    } else {
        (" Completed with issues ", Role::Danger)
    }
}

// -- status and hints --------------------------------------------------------

fn status_spans(app: &App) -> (r: Option<Vec<Span>>)
    ensures
        r is Some <==> app@.status is Some,
        r matches Some(l) ==> (app@.status matches Some((msg, _)) && line_model(l@) == seq![
            sp(" "@ + msg, Role::Warn),
        ]),
{
    match &app.status {
        Some((msg, _)) => {
            let mut s = " ".to_owned();
            push_text(&mut s, msg.as_str());
            Some(one_span(s, Role::Warn))
        },
        None => None,
    }
}

/// The status line, while there is a message.
pub fn draw_status(app: &App, g: &Glyphs) -> (r: Option<Vec<Span>>)
    ensures
        r is Some <==> app@.status is Some,
        r matches Some(l) ==> (app@.status matches Some((msg, _)) && line_model(l@) == themed(
            seq![sp(" "@ + msg, Role::Warn)],
            g@,
        )),
{
    match status_spans(app) {
        Some(l) => Some(theme_line(&l, g)),
        None => None,
    }
}

/// The keys that a screen takes, each with what it does.
pub open spec fn hints(m: AppModel) -> Seq<(Seq<char>, Seq<char>)> {
    match m.screen {
        Screen::Disks => seq![
            ("up/dn"@, "move"@),
            ("spc"@, "select"@),
            ("</>"@, "method"@),
            ("v"@, "verify"@),
            ("+/-"@, "rounds"@),
            ("b"@, "blank"@),
            ("r"@, "rescan"@),
            ("s"@, "START"@),
            ("?"@, "help"@),
            ("q"@, "quit"@),
        ],
        Screen::Confirm => seq![
            ("type phrase"@, ""@),
            ("enter"@, "confirm"@),
            ("esc"@, "cancel"@),
        ],
        Screen::Wiping => seq![
            ("up/dn"@, "select"@),
            ("c"@, "cancel job"@),
            ("?"@, "help"@),
            ("q"@, "quit"@),
        ],
        Screen::Summary => if m.pid1 {
            seq![
                ("w"@, "write report"@),
                ("n"@, "new session"@),
                ("r"@, "reboot"@),
                ("p"@, "power off"@),
            ]
        } else {
            seq![("w"@, "write report"@), ("n"@, "new session"@), ("q"@, "quit"@)]
        },
    }
}

/// The spans of a hint: a key cap, and what the key does.
pub open spec fn hint_spans(h: (Seq<char>, Seq<char>)) -> Seq<SpanModel> {
    seq![
        sp(" "@ + h.0 + " "@, Role::KeyHint),
        if h.1.len() > 0 {
            sp(" "@ + h.1 + "  "@, Role::Muted)
        } else {
            sp("  "@, Role::Plain)
        },
    ]
}

/// The hint bar of the first `n` hints.
pub open spec fn hint_bar(h: Seq<(Seq<char>, Seq<char>)>, n: nat) -> Seq<SpanModel>
    decreases n,
{
    if n == 0 {
        Seq::empty()
    } else {
        hint_bar(h, (n - 1) as nat) + hint_spans(h[n - 1])
    }
}

/// Hints by their texts.
pub open spec fn hint_models(v: Seq<(&'static str, &'static str)>) -> Seq<(Seq<char>, Seq<char>)> {
    v.map_values(|p: (&'static str, &'static str)| (p.0@, p.1@))
}

fn hint_pairs(app: &App) -> (v: Vec<(&'static str, &'static str)>)
    ensures
        hint_models(v@) == hints(app@),
{
    let v: Vec<(&'static str, &'static str)> = match app.screen {
        Screen::Disks => vec![
            ("up/dn", "move"),
            ("spc", "select"),
            ("</>", "method"),
            ("v", "verify"),
            ("+/-", "rounds"),
            ("b", "blank"),
            ("r", "rescan"),
            ("s", "START"),
            ("?", "help"),
            ("q", "quit"),
        ],
        Screen::Confirm => vec![("type phrase", ""), ("enter", "confirm"), ("esc", "cancel")],
        Screen::Wiping => vec![
            ("up/dn", "select"),
            ("c", "cancel job"),
            ("?", "help"),
            ("q", "quit"),
        ],
        Screen::Summary => if app.pid1 {
            vec![
                ("w", "write report"),
                ("n", "new session"),
                ("r", "reboot"),
                ("p", "power off"),
            ]
        } else {
            vec![("w", "write report"), ("n", "new session"), ("q", "quit")]
        },
    };
    assert(hint_models(v@) =~= hints(app@));
    v
}

fn hint_line(app: &App) -> (l: Vec<Span>)
    ensures
        line_model(l@) == hint_bar(hints(app@), hints(app@).len()),
{
    let pairs = hint_pairs(app);
    let ghost all = hints(app@);
    assert(hint_models(pairs@).len() == pairs@.len());
    let mut l: Vec<Span> = Vec::new();
    let mut i: usize = 0;
    assert(line_model(l@) =~= hint_bar(all, 0));
    while i < pairs.len()
        invariant
            i <= pairs@.len(),
            hint_models(pairs@) == all,
            all.len() == pairs@.len(),
            line_model(l@) == hint_bar(all, i as nat),
        decreases pairs@.len() - i,
    {
        let ghost before = l@;
        let (key, what) = pairs[i];
        assert(all[i as int] == hint_models(pairs@)[i as int]);
        assert(all[i as int] == (key@, what@));
        let mut cap = " ".to_owned();
        push_text(&mut cap, key);
        push_text(&mut cap, " ");
        l.push(span(cap, Role::KeyHint));
        if chars_of(what).len() > 0 {
            let mut t = " ".to_owned();
            push_text(&mut t, what);
            push_text(&mut t, "  ");
            l.push(span(t, Role::Muted));
        } else {
            l.push(lit("  ", Role::Plain));
        }
        assert(line_model(l@) =~= line_model(before) + hint_spans(all[i as int]));
        i += 1;
    }
    l
}

/// The hint bar: the keys that the screen takes.
pub fn draw_hints(app: &App, g: &Glyphs) -> (l: Vec<Span>)
    ensures
        line_model(l@) == themed(hint_bar(hints(app@), hints(app@).len()), g@),
{
    theme_line(&hint_line(app), g)
}

// -- modals ------------------------------------------------------------------

/// A rectangle on the terminal, in columns and rows.
#[derive(Clone, Copy, Debug, PartialEq, Eq, Structural)]
pub struct Rect {
    pub x: u16,
    pub y: u16,
    pub width: u16,
    pub height: u16,
}

/// A rectangle of `w` by `h` in the middle of `area`, no larger than it.
pub fn centered(area: Rect, w: u16, h: u16) -> (r: Rect)
    requires
        area.x + area.width <= u16::MAX,
        area.y + area.height <= u16::MAX,
    ensures
        r.width == (if w < area.width { w } else { area.width }),
        r.height == (if h < area.height { h } else { area.height }),
        r.x == area.x + (area.width - r.width) / 2,
        r.y == area.y + (area.height - r.height) / 2,
        area.x <= r.x && r.x + r.width <= area.x + area.width,
        area.y <= r.y && r.y + r.height <= area.y + area.height,
{
    let width: u16 = if w < area.width { w } else { area.width };
    let height: u16 = if h < area.height { h } else { area.height };
    Rect {
        x: area.x + (area.width - width) / 2,
        y: area.y + (area.height - height) / 2,
        width,
        height,
    }
}

/// The help overlay.
pub open spec fn help_spec() -> Seq<Seq<SpanModel>> {
    seq![
        seq![sp("DBAN - secure disk sanitization"@, Role::Title)],
        empty_line(),
        seq![sp("Disks screen:"@, Role::Plain)],
        seq![sp("  up/dn or j/k move cursor"@, Role::Plain)],
        seq![sp("  space/enter  toggle disk for erasure"@, Role::Plain)],
        seq![sp("  </> or [/]   change wipe method"@, Role::Plain)],
        seq![sp("  v            cycle verify mode (off/last/all)"@, Role::Plain)],
        seq![sp("  +/-          repeat the method N rounds"@, Role::Plain)],
        seq![sp("  b            toggle a final zero-blanking pass"@, Role::Plain)],
        seq![sp("  s            arm and start (requires typed phrase)"@, Role::Plain)],
        empty_line(),
        seq![sp("Locked disks (mounted/swap/boot/in-use) can never be selected."@, Role::Plain)],
        seq![sp("Random passes are verified by regenerating their seed stream."@, Role::Plain)],
        empty_line(),
        seq![sp("Press any key to close."@, Role::Muted)],
    ]
}

fn help_lines() -> (v: Vec<Vec<Span>>)
    ensures
        lines_model(v@) == help_spec(),
{
    let v = vec![
        lit_line("DBAN - secure disk sanitization", Role::Title),
        lit_line("", Role::Plain),
        lit_line("Disks screen:", Role::Plain),
        lit_line("  up/dn or j/k move cursor", Role::Plain),
        lit_line("  space/enter  toggle disk for erasure", Role::Plain),
        lit_line("  </> or [/]   change wipe method", Role::Plain),
        lit_line("  v            cycle verify mode (off/last/all)", Role::Plain),
        lit_line("  +/-          repeat the method N rounds", Role::Plain),
        lit_line("  b            toggle a final zero-blanking pass", Role::Plain),
        lit_line("  s            arm and start (requires typed phrase)", Role::Plain),
        lit_line("", Role::Plain),
        lit_line("Locked disks (mounted/swap/boot/in-use) can never be selected.", Role::Plain),
        lit_line("Random passes are verified by regenerating their seed stream.", Role::Plain),
        lit_line("", Role::Plain),
        lit_line("Press any key to close.", Role::Muted),
    ];
    assert(lines_model(v@) =~= help_spec());
    v
}

/// The help overlay.
pub fn draw_help(g: &Glyphs) -> (v: Vec<Vec<Span>>)
    ensures
        lines_model(v@) == themed_lines(help_spec(), g@),
{
    theme_lines(&help_lines(), g)
}

/// The question whether to quit.
pub open spec fn quit_modal_spec(m: AppModel) -> Seq<Seq<SpanModel>> {
    let top = seq![empty_line()];
    let warned = if m.running() {
        top.push(seq![sp("Wipes are still running. Quitting cancels them."@, Role::Warn)])
    } else {
        top
    };
    warned.push(empty_line()).push(
        seq![
            sp(
                if m.pid1 {
                    "  r  reboot      p  power off      n/esc  stay"@
                } else {
                    "  y  quit        n/esc  stay"@
                },
                Role::Plain,
            ),
        ],
    )
}

fn quit_lines(app: &App) -> (v: Vec<Vec<Span>>)
    ensures
        lines_model(v@) == quit_modal_spec(app@),
{
    let mut v: Vec<Vec<Span>> = Vec::new();
    add_line(&mut v, lit_line("", Role::Plain));
    assert(lines_model(v@) =~= seq![empty_line()]);
    if app.jobs_running() {
        add_line(&mut v, lit_line("Wipes are still running. Quitting cancels them.", Role::Warn));
    }
    add_line(&mut v, lit_line("", Role::Plain));
    add_line(
        &mut v,
        lit_line(
            if app.pid1 {
                "  r  reboot      p  power off      n/esc  stay"
            } else {
                "  y  quit        n/esc  stay"
            },
            Role::Plain,
        ),
    );
    v
}

/// The question whether to quit, with a warning while jobs run.
pub fn draw_quit_modal(app: &App, g: &Glyphs) -> (v: Vec<Vec<Span>>)
    ensures
        lines_model(v@) == themed_lines(quit_modal_spec(app@), g@),
{
    theme_lines(&quit_lines(app), g)
}

/// The name of the disk whose job may be cancelled.
pub open spec fn cancel_name(m: AppModel) -> Seq<char> {
    match m.confirm_cancel_job {
        Some(i) => if i < m.jobs.len() {
            m.jobs[i as int].disk.name
        } else {
            Seq::empty()
        },
        None => Seq::empty(),
    }
}

/// The question whether to cancel a job.
pub open spec fn cancel_modal_spec(m: AppModel) -> Seq<Seq<SpanModel>> {
    seq![
        empty_line(),
        seq![sp("Cancel the wipe of "@ + cancel_name(m) + "?"@, Role::Warn)],
        seq![sp("The disk will be left partially overwritten."@, Role::Muted)],
        empty_line(),
        seq![sp("  y  cancel job      n/esc  keep going"@, Role::Plain)],
    ]
}

fn cancel_lines(app: &App) -> (v: Vec<Vec<Span>>)
    ensures
        lines_model(v@) == cancel_modal_spec(app@),
{
    let mut q = "Cancel the wipe of ".to_owned();
    match app.confirm_cancel_job {
        Some(i) => {
            if i < app.jobs.len() {
                assert(app@.jobs[i as int] == app.jobs@[i as int]@);
                push_text(&mut q, app.jobs[i].name());
            }
        },
        None => {},
    }
    push_text(&mut q, "?");
    assert(q@ =~= "Cancel the wipe of "@ + cancel_name(app@) + "?"@);
    let v = vec![
        lit_line("", Role::Plain),
        one_span(q, Role::Warn),
        lit_line("The disk will be left partially overwritten.", Role::Muted),
        lit_line("", Role::Plain),
        lit_line("  y  cancel job      n/esc  keep going", Role::Plain),
    ];
    assert(lines_model(v@) =~= cancel_modal_spec(app@));
    v
}

/// The question whether to cancel a job.
pub fn draw_cancel_modal(app: &App, g: &Glyphs) -> (v: Vec<Vec<Span>>)
    ensures
        lines_model(v@) == themed_lines(cancel_modal_spec(app@), g@),
{
    theme_lines(&cancel_lines(app), g)
}

} // verus!
