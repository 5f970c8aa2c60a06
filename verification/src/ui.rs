//! The navigation model of the application's windows: the domain rail, the
//! command palette, the action hubs, the open workspaces and the tile grid.
//! Drawing them is left to the windowing layer.
use vstd::prelude::*;
use vstd::view::View as _;
use crate::domain::calculator::after_clear_history;
use crate::domain::portfolio::{View, empty_project};
use crate::domain::session::{
    CURRENT_SCHEMA_VERSION, PortfolioView, SessionSnapshot, SessionView, empty_session, migrate,
};
use crate::domain::color_converter::{ColorError, hex_valid};
use crate::domain::{Command, CoreError, CoreState, CoreView, dispatched};
use crate::text::{chars_of, find_pattern, lemma_first_occurrence_some, occurs_at};

verus! {

/// What a command-palette entry does.
#[derive(Clone, Copy, Debug, PartialEq, Eq, Structural)]
pub enum PaletteTarget {
    Navigate(View),
    ToggleTile,
    Quit,
}

/// A command-palette entry: its label and what it does.
#[derive(Clone, Copy, Debug, PartialEq, Eq)]
pub struct PaletteEntry {
    pub label: &'static str,
    pub target: PaletteTarget,
}

/// An action offered by a workspace's action hub.
#[derive(Clone, Copy, Debug, PartialEq, Eq, Structural)]
pub enum HubAction {
    EditPortfolio,
    AddProject,
    ClearHistory,
}

/// An action-hub entry: its label and the action.
#[derive(Clone, Copy, Debug, PartialEq, Eq)]
pub struct HubEntry {
    pub label: &'static str,
    pub action: HubAction,
}

/// A palette entry as plain values.
pub open spec fn entry_view(e: PaletteEntry) -> (Seq<char>, PaletteTarget) {
    (e.label@, e.target)
}

/// Palette entries as plain values.
pub open spec fn entries_view(s: Seq<PaletteEntry>) -> Seq<(Seq<char>, PaletteTarget)> {
    Seq::new(s.len(), |i: int| entry_view(s[i]))
}

/// Menu items as plain values.
pub open spec fn menu_view(s: Seq<(&'static str, View)>) -> Seq<(Seq<char>, View)> {
    Seq::new(s.len(), |i: int| (s[i].0@, s[i].1))
}

/// Hub entries as plain values.
pub open spec fn hub_view(s: Seq<HubEntry>) -> Seq<(Seq<char>, HubAction)> {
    Seq::new(s.len(), |i: int| (s[i].label@, s[i].action))
}

/// The portfolio workspaces of the rail.
pub open spec fn portfolio_menu_spec() -> Seq<(Seq<char>, View)> {
    seq![("About"@, View::About), ("Projects"@, View::Projects), ("Contact"@, View::Contact)]
}

/// The tool workspaces of the rail.
pub open spec fn tool_menu_spec() -> Seq<(Seq<char>, View)> {
    seq![
        ("Calculator"@, View::Calculator),
        ("Text analyzer"@, View::TextAnalyzer),
        ("Color converter"@, View::ColorConverter),
    ]
}

/// The portfolio workspaces of the rail, in order.
pub fn portfolio_menu_items() -> (r: [(&'static str, View); 3])
    ensures
        menu_view(r@) == portfolio_menu_spec(),
{
    let r = [("About", View::About), ("Projects", View::Projects), ("Contact", View::Contact)];
    assert(menu_view(r@) =~= portfolio_menu_spec());
    r
}

/// The tool workspaces of the rail, in order.
pub fn tool_menu_items() -> (r: [(&'static str, View); 3])
    ensures
        menu_view(r@) == tool_menu_spec(),
{
    let r = [
        ("Calculator", View::Calculator),
        ("Text analyzer", View::TextAnalyzer),
        ("Color converter", View::ColorConverter),
    ];
    assert(menu_view(r@) =~= tool_menu_spec());
    r
}

/// The palette entries: home, the rail workspaces, the portfolio editor,
/// then the tile toggle on the desktop layout and quitting in the native
/// application.
pub open spec fn palette_spec(tiled: bool, native: bool, desktop: bool) -> Seq<
    (Seq<char>, PaletteTarget),
> {
    let base = seq![("Home"@, PaletteTarget::Navigate(View::Home))] + Seq::new(
        6,
        |i: int|
            {
                let m = portfolio_menu_spec() + tool_menu_spec();
                (m[i].0, PaletteTarget::Navigate(m[i].1))
            },
    ) + seq![("Edit portfolio"@, PaletteTarget::Navigate(View::EditPortfolio))];
    let with_tile = if desktop {
        base.push(
            (
                if tiled {
                    "Untile windows"@
                } else {
                    "Tile windows"@
                },
                PaletteTarget::ToggleTile,
            ),
        )
    } else {
        base
    };
    if native {
        with_tile.push(("Quit"@, PaletteTarget::Quit))
    } else {
        with_tile
    }
}

/// The rail holds six workspaces, three of the portfolio and three tools,
/// and the portfolio editor is none of them.
pub proof fn lemma_rail_has_six_workspaces()
    ensures
        portfolio_menu_spec().len() == 3,
        tool_menu_spec().len() == 3,
        forall|i: int|
            0 <= i < 6 ==> #[trigger] (portfolio_menu_spec() + tool_menu_spec())[i].1
                != View::EditPortfolio,
{
    let m = portfolio_menu_spec() + tool_menu_spec();
    assert(m.len() == 6);
    assert(m[0].1 == View::About && m[1].1 == View::Projects && m[2].1 == View::Contact);
    assert(m[3].1 == View::Calculator && m[4].1 == View::TextAnalyzer && m[5].1
        == View::ColorConverter);
}

/// Every destination is reachable from the palette, whatever the layout:
/// home, the six workspaces and the portfolio editor each have an entry.
pub proof fn lemma_palette_reaches_every_view(tiled: bool, native: bool, desktop: bool, view: View)
    ensures
        exists|i: int|
            0 <= i < palette_spec(tiled, native, desktop).len() && #[trigger] palette_spec(
                tiled,
                native,
                desktop,
            )[i].1 == PaletteTarget::Navigate(view),
{
    let p = palette_spec(tiled, native, desktop);
    let m = portfolio_menu_spec() + tool_menu_spec();
    assert(p.len() >= 8);
    assert(p[0].1 == PaletteTarget::Navigate(View::Home));
    assert(p[7].1 == PaletteTarget::Navigate(View::EditPortfolio));
    assert forall|k: int| 0 <= k < 6 implies #[trigger] p[k + 1].1 == PaletteTarget::Navigate(m[k].1) by {}
    match view {
        View::Home => assert(p[0].1 == PaletteTarget::Navigate(view)),
        View::About => assert(p[1].1 == PaletteTarget::Navigate(view)),
        View::Projects => assert(p[2].1 == PaletteTarget::Navigate(view)),
        View::Contact => assert(p[3].1 == PaletteTarget::Navigate(view)),
        View::Calculator => assert(p[4].1 == PaletteTarget::Navigate(view)),
        View::TextAnalyzer => assert(p[5].1 == PaletteTarget::Navigate(view)),
        View::ColorConverter => assert(p[6].1 == PaletteTarget::Navigate(view)),
        View::EditPortfolio => assert(p[7].1 == PaletteTarget::Navigate(view)),
    }
}

/// The command-palette entries, in a fixed order.
pub fn palette_entries(tiled: bool, native: bool, desktop: bool) -> (r: Vec<PaletteEntry>)
    ensures
        entries_view(r@) == palette_spec(tiled, native, desktop),
{
    let mut entries: Vec<PaletteEntry> = Vec::new();
    entries.push(PaletteEntry { label: "Home", target: PaletteTarget::Navigate(View::Home) });
    let rail = rail_items();
    assert(menu_view(rail@).len() == rail@.len());
    let mut i: usize = 0;
    while i < 6
        invariant
            i <= 6,
            menu_view(rail@) == portfolio_menu_spec() + tool_menu_spec(),
            rail@.len() == 6,
            entries_view(entries@) == seq![("Home"@, PaletteTarget::Navigate(View::Home))]
                + Seq::new(
                i as nat,
                |k: int|
                    {
                        let m = portfolio_menu_spec() + tool_menu_spec();
                        (m[k].0, PaletteTarget::Navigate(m[k].1))
                    },
            ),
        decreases 6 - i,
    {
        let (label, view) = rail[i];
        let ghost prev = entries@;
        entries.push(PaletteEntry { label, target: PaletteTarget::Navigate(view) });
        assert(entries_view(entries@) == entries_view(prev).push(entry_view(entries@[i + 1])));
        i = i + 1;
    }
    entries.push(
        PaletteEntry { label: "Edit portfolio", target: PaletteTarget::Navigate(View::EditPortfolio) },
    );
    if desktop {
        let label = if tiled {
            "Untile windows"
        } else {
            "Tile windows"
        };
        entries.push(PaletteEntry { label, target: PaletteTarget::ToggleTile });
    }
    if native {
        entries.push(PaletteEntry { label: "Quit", target: PaletteTarget::Quit });
    }
    assert(entries_view(entries@) =~= palette_spec(tiled, native, desktop));
    entries
}

/// The rail's six workspaces in order: the portfolio ones, then the tools.
fn rail_items() -> (r: Vec<(&'static str, View)>)
    ensures
        menu_view(r@) == portfolio_menu_spec() + tool_menu_spec(),
{
    let portfolio = portfolio_menu_items();
    let tools = tool_menu_items();
    let mut r: Vec<(&'static str, View)> = Vec::new();
    r.push(portfolio[0]);
    r.push(portfolio[1]);
    r.push(portfolio[2]);
    r.push(tools[0]);
    r.push(tools[1]);
    r.push(tools[2]);
    assert(menu_view(r@) =~= menu_view(portfolio@) + menu_view(tools@));
    r
}

/// `s` holds `p` as a contiguous part.
pub open spec fn contains_seq(s: Seq<char>, p: Seq<char>) -> bool {
    exists|i: int| occurs_at(s, p, i)
}

/// Whether `s` holds `p` as a contiguous part.
pub fn contains_str(s: &str, p: &str) -> (r: bool)
    ensures
        r == contains_seq(s@, p@),
{
    let sv = chars_of(s);
    let pv = chars_of(p);
    if pv.len() == 0 {
        assert(occurs_at(s@, p@, 0)) by {
            assert(s@.subrange(0, 0) =~= p@);
        }
        return true;
    }
    if pv.len() > sv.len() {
        return false;
    }
    assert(sv@.subrange(0, sv@.len() as int) == sv@);
    let found = find_pattern(&sv, 0, sv.len(), pv.as_slice());
    proof {
        lemma_first_occurrence_some(s@, p@);
    }
    found.is_some()
}

/// The lowercase form of a string, as `str::to_lowercase` gives it.
pub uninterp spec fn lowercase(s: Seq<char>) -> Seq<char>;

/// `str::to_lowercase`. Its result is named `lowercase`; the one fact stated
/// of it is that the empty string stays empty.
#[verifier::external_body]
fn to_lowercase(s: &str) -> (r: String)
    ensures
        r@ == lowercase(s@),
        s@.len() == 0 ==> r@.len() == 0,
{
    s.to_lowercase()
}

/// The entries whose lowercased label holds the lowercased query, in their
/// order; an empty lowercased query keeps every entry.
pub open spec fn filtered(
    query: Seq<char>,
    labels: Seq<Seq<char>>,
    entries: Seq<(Seq<char>, PaletteTarget)>,
) -> Seq<(Seq<char>, PaletteTarget)>
    decreases entries.len(),
{
    if entries.len() == 0 {
        Seq::empty()
    } else {
        let rest = filtered(query, labels.drop_last(), entries.drop_last());
        if query.len() == 0 || contains_seq(labels.last(), query) {
            rest.push(entries.last())
        } else {
            rest
        }
    }
}

/// An empty query keeps every entry.
pub proof fn lemma_filtered_empty_query(
    labels: Seq<Seq<char>>,
    entries: Seq<(Seq<char>, PaletteTarget)>,
)
    requires
        labels.len() == entries.len(),
    ensures
        filtered(Seq::empty(), labels, entries) == entries,
    decreases entries.len(),
{
    if entries.len() > 0 {
        lemma_filtered_empty_query(labels.drop_last(), entries.drop_last());
        assert(entries.drop_last().push(entries.last()) == entries);
    }
}

/// The palette filter does not see the case of the query: two queries with
/// the same lowercase form keep the same entries.
pub proof fn lemma_filter_case_insensitive(
    q1: Seq<char>,
    q2: Seq<char>,
    entries: Seq<(Seq<char>, PaletteTarget)>,
)
    requires
        lowercase(q1) == lowercase(q2),
    ensures
        filtered(lowercase(q1), lowered_labels(entries), entries) == filtered(
            lowercase(q2),
            lowered_labels(entries),
            entries,
        ),
{
}

/// The lowercased labels of entries.
pub open spec fn lowered_labels(entries: Seq<(Seq<char>, PaletteTarget)>) -> Seq<Seq<char>> {
    Seq::new(entries.len(), |i: int| lowercase(entries[i].0))
}

/// Keeps the entries whose label, lowered into `lowered[i]`, holds the
/// lowered query `query`; an empty query keeps every entry. Order is kept.
pub fn filter_lowered(query: &str, lowered: &Vec<String>, entries: &[PaletteEntry]) -> (r: Vec<
    PaletteEntry,
>)
    requires
        lowered@.len() == entries@.len(),
    ensures
        entries_view(r@) == filtered(
            query@,
            Seq::new(lowered@.len(), |i: int| lowered@[i]@),
            entries_view(entries@),
        ),
{
    let ghost labels = Seq::new(lowered@.len(), |i: int| lowered@[i]@);
    let ghost ev = entries_view(entries@);
    let qv = chars_of(query);
    let empty = qv.len() == 0;
    let mut r: Vec<PaletteEntry> = Vec::new();
    let mut i: usize = 0;
    while i < entries.len()
        invariant
            i <= entries@.len(),
            lowered@.len() == entries@.len(),
            labels == Seq::new(lowered@.len(), |k: int| lowered@[k]@),
            ev == entries_view(entries@),
            empty == (query@.len() == 0),
            entries_view(r@) == filtered(
                query@,
                labels.take(i as int),
                ev.take(i as int),
            ),
        decreases entries@.len() - i,
    {
        let keep = empty || contains_str(lowered[i].as_str(), query);
        let ghost prev = r@;
        assert(labels.take(i + 1).drop_last() == labels.take(i as int));
        assert(ev.take(i + 1).drop_last() == ev.take(i as int));
        assert(labels.take(i + 1).last() == lowered@[i as int]@);
        assert(ev.take(i + 1).last() == entry_view(entries@[i as int]));
        if keep {
            r.push(entries[i]);
            assert(entries_view(r@) == entries_view(prev).push(entry_view(entries@[i as int])));
        }
        i = i + 1;
    }
    assert(labels.take(entries@.len() as int) == labels);
    assert(ev.take(entries@.len() as int) == ev);
    r
}

/// The case-insensitive palette filter: the entries whose label holds the
/// query, both lowered, in their order; an empty query keeps every entry.
pub fn palette_filter(query: &str, entries: &[PaletteEntry]) -> (r: Vec<PaletteEntry>)
    ensures
        entries_view(r@) == filtered(
            lowercase(query@),
            lowered_labels(entries_view(entries@)),
            entries_view(entries@),
        ),
        query@.len() == 0 ==> entries_view(r@) == entries_view(entries@),
{
    let q = to_lowercase(query);
    let mut lowered: Vec<String> = Vec::new();
    let mut i: usize = 0;
    while i < entries.len()
        invariant
            i <= entries@.len(),
            lowered@.len() == i,
            forall|k: int| 0 <= k < i ==> #[trigger] lowered@[k]@ == lowercase(entries@[k].label@),
        decreases entries@.len() - i,
    {
        lowered.push(to_lowercase(entries[i].label));
        i = i + 1;
    }
    let r = filter_lowered(q.as_str(), &lowered, entries);
    assert(Seq::new(lowered@.len(), |k: int| lowered@[k]@) =~= lowered_labels(
        entries_view(entries@),
    ));
    proof {
        if query@.len() == 0 {
            assert(q@ == Seq::<char>::empty());
            lemma_filtered_empty_query(
                lowered_labels(entries_view(entries@)),
                entries_view(entries@),
            );
        }
    }
    r
}

/// The action hub of the About workspace.
pub fn about_hub() -> (r: [HubEntry; 1])
    ensures
        hub_view(r@) == seq![("Edit portfolio"@, HubAction::EditPortfolio)],
{
    let r = [HubEntry { label: "Edit portfolio", action: HubAction::EditPortfolio }];
    assert(hub_view(r@) =~= seq![("Edit portfolio"@, HubAction::EditPortfolio)]);
    r
}

/// The action hub of the Projects workspace.
pub fn projects_hub() -> (r: [HubEntry; 2])
    ensures
        hub_view(r@) == seq![
            ("Add project"@, HubAction::AddProject),
            ("Edit portfolio"@, HubAction::EditPortfolio),
        ],
{
    let r = [
        HubEntry { label: "Add project", action: HubAction::AddProject },
        HubEntry { label: "Edit portfolio", action: HubAction::EditPortfolio },
    ];
    assert(hub_view(r@) =~= seq![
        ("Add project"@, HubAction::AddProject),
        ("Edit portfolio"@, HubAction::EditPortfolio),
    ]);
    r
}

/// The action hub of the Contact workspace.
pub fn contact_hub() -> (r: [HubEntry; 1])
    ensures
        hub_view(r@) == seq![("Edit portfolio"@, HubAction::EditPortfolio)],
{
    let r = [HubEntry { label: "Edit portfolio", action: HubAction::EditPortfolio }];
    assert(hub_view(r@) =~= seq![("Edit portfolio"@, HubAction::EditPortfolio)]);
    r
}

/// The action hub of the Calculator workspace.
pub fn calculator_hub() -> (r: [HubEntry; 1])
    ensures
        hub_view(r@) == seq![("Clear history"@, HubAction::ClearHistory)],
{
    let r = [HubEntry { label: "Clear history", action: HubAction::ClearHistory }];
    assert(hub_view(r@) =~= seq![("Clear history"@, HubAction::ClearHistory)]);
    r
}

/// The state of the windows: which workspaces are open, the mobile
/// destination, tile mode and the command palette. None of it is persisted.
pub struct WorkspaceState {
    pub mobile_view: View,
    pub about_open: bool,
    pub projects_open: bool,
    pub contact_open: bool,
    pub edit_open: bool,
    pub calculator_open: bool,
    pub text_analyzer_open: bool,
    pub color_converter_open: bool,
    pub color_error: Option<String>,
    pub tiled: bool,
    pub palette_open: bool,
    pub palette_query: String,
    pub palette_selection: usize,
    pub palette_focus_requested: bool,
}

/// Every window closed, on the home view, the palette shut and empty.
pub open spec fn is_fresh(w: WorkspaceState) -> bool {
    &&& w.mobile_view == View::Home
    &&& !w.about_open && !w.projects_open && !w.contact_open && !w.edit_open
    &&& !w.calculator_open && !w.text_analyzer_open && !w.color_converter_open
    &&& w.color_error is None
    &&& !w.tiled
    &&& !w.palette_open
    &&& w.palette_query@ == Seq::<char>::empty()
    &&& w.palette_selection == 0
    &&& !w.palette_focus_requested
}

impl Default for WorkspaceState {
    fn default() -> (r: Self)
        ensures
            is_fresh(r),
    {
        WorkspaceState {
            mobile_view: View::Home,
            about_open: false,
            projects_open: false,
            contact_open: false,
            edit_open: false,
            calculator_open: false,
            text_analyzer_open: false,
            color_converter_open: false,
            color_error: None,
            tiled: false,
            palette_open: false,
            palette_query: String::new(),
            palette_selection: 0,
            palette_focus_requested: false,
        }
    }
}

/// The window flags after opening the workspace of `view`; on the mobile
/// layout `view` also becomes the destination.
pub open spec fn activated(a: WorkspaceState, b: WorkspaceState, view: View, mobile: bool) -> bool {
    &&& b.about_open == (a.about_open || view == View::About)
    &&& b.projects_open == (a.projects_open || view == View::Projects)
    &&& b.contact_open == (a.contact_open || view == View::Contact)
    &&& b.edit_open == (a.edit_open || view == View::EditPortfolio)
    &&& b.calculator_open == (a.calculator_open || view == View::Calculator)
    &&& b.text_analyzer_open == (a.text_analyzer_open || view == View::TextAnalyzer)
    &&& b.color_converter_open == (a.color_converter_open || view == View::ColorConverter)
    &&& b.mobile_view == if mobile {
        view
    } else {
        a.mobile_view
    }
    &&& b.color_error == a.color_error
    &&& b.tiled == a.tiled
    &&& b.palette_open == a.palette_open
    &&& b.palette_query == a.palette_query
    &&& b.palette_selection == a.palette_selection
    &&& b.palette_focus_requested == a.palette_focus_requested
}

/// The number of open workspaces.
pub open spec fn open_count(w: WorkspaceState) -> nat {
    (if w.about_open { 1nat } else { 0 }) + (if w.projects_open { 1nat } else { 0 }) + (
    if w.contact_open { 1nat } else { 0 }) + (if w.edit_open { 1nat } else { 0 }) + (
    if w.calculator_open { 1nat } else { 0 }) + (if w.text_analyzer_open { 1nat } else { 0 }) + (
    if w.color_converter_open { 1nat } else { 0 })
}

impl WorkspaceState {
    /// Opens the workspace of `view` (home has none); on the mobile layout
    /// `view` also becomes the destination.
    pub fn activate_view(&mut self, view: View, mobile: bool)
        ensures
            activated(*old(self), *final(self), view, mobile),
    {
        match view {
            View::Home => {},
            View::About => self.about_open = true,
            View::Projects => self.projects_open = true,
            View::Contact => self.contact_open = true,
            View::EditPortfolio => self.edit_open = true,
            View::Calculator => self.calculator_open = true,
            View::TextAnalyzer => self.text_analyzer_open = true,
            View::ColorConverter => self.color_converter_open = true,
        }
        if mobile {
            self.mobile_view = view;
        }
    }

    /// Moves the palette selection over `count` results: first kept in
    /// range, then one down and one up, each wrapping around at the ends.
    /// With no results it stays.
    pub fn move_palette_selection(&mut self, count: usize, down: bool, up: bool)
        ensures
            count == 0 ==> final(self).palette_selection == old(self).palette_selection,
            count > 0 ==> {
                let s0 = if old(self).palette_selection < count {
                    old(self).palette_selection as int
                } else {
                    count - 1
                };
                let s1 = if !down {
                    s0
                } else if s0 + 1 == count {
                    0
                } else {
                    s0 + 1
                };
                let s2 = if !up {
                    s1
                } else if s1 == 0 {
                    count - 1
                } else {
                    s1 - 1
                };
                final(self).palette_selection == s2
            },
            *final(self) == (WorkspaceState {
                palette_selection: final(self).palette_selection,
                ..*old(self)
            }),
    {
        if count > 0 {
            let mut sel = self.palette_selection;
            if sel > count - 1 {
                sel = count - 1;
            }
            if down {
                sel = if sel + 1 == count {
                    0
                } else {
                    sel + 1
                };
            }
            if up {
                sel = if sel == 0 {
                    count - 1
                } else {
                    sel - 1
                };
            }
            self.palette_selection = sel;
        }
    }
}

/// The number of open workspaces.
pub fn open_window_count(workspace: &WorkspaceState) -> (r: usize)
    ensures
        r == open_count(*workspace),
{
    let mut n: usize = 0;
    if workspace.about_open {
        n = n + 1;
    }
    if workspace.projects_open {
        n = n + 1;
    }
    if workspace.contact_open {
        n = n + 1;
    }
    if workspace.edit_open {
        n = n + 1;
    }
    if workspace.calculator_open {
        n = n + 1;
    }
    if workspace.text_analyzer_open {
        n = n + 1;
    }
    if workspace.color_converter_open {
        n = n + 1;
    }
    n
}

/// Columns and rows of the pane grid for `count` tiled workspaces: the
/// fewest columns `c` with `c * c >= count`, and `count / c` rounded up
/// rows; none for no panes. Panes fill it left to right, top to bottom.
pub fn tile_grid(count: usize) -> (r: (usize, usize))
    ensures
        count == 0 ==> r == (0usize, 0usize),
        count > 0 ==> {
            &&& r.0 >= 1
            &&& r.0 * r.0 >= count
            &&& (r.0 - 1) * (r.0 - 1) < count
            &&& r.1 * r.0 >= count
            &&& (r.1 - 1) * r.0 < count
        },
{
    if count == 0 {
        return (0, 0);
    }
    let mut columns: usize = 1;
    while columns <= (count - 1) / columns
        invariant
            1 <= columns <= count,
            (columns - 1) * (columns - 1) < count,
        decreases count - columns,
    {
        assert(columns * columns < count && columns < count) by (nonlinear_arith)
            requires
                columns >= 1,
                columns <= (count - 1) as int / columns as int,
                count >= 1,
        ;
        columns = columns + 1;
    }
    assert(columns * columns >= count) by (nonlinear_arith)
        requires
            columns >= 1,
            columns > (count - 1) as int / columns as int,
            count >= 1,
    ;
    let q = count / columns;
    assert(count == q * columns + count % columns) by (nonlinear_arith)
        requires
            columns >= 1,
            q == count / columns,
    ;
    let rows = if count % columns == 0 {
        q
    } else {
        assert(q < count) by (nonlinear_arith)
            requires
                columns >= 1,
                q == count / columns,
                count % columns != 0,
                count >= 1,
        ;
        q + 1
    };
    assert(rows * columns >= count && (rows - 1) * columns < count) by (nonlinear_arith)
        requires
            columns >= 1,
            q == count / columns,
            rows == if count % columns == 0 {
                q as int
            } else {
                q + 1
            },
            count == q * columns + count % columns,
            0 <= count % columns < columns,
    ;
    (columns, rows)
}

/// What the windowing layer still has to do after a palette entry ran.
#[derive(Clone, Copy, Debug, PartialEq, Eq, Structural)]
pub enum PaletteEffect {
    Nothing,
    ResetWindows,
    Quit,
}

/// The application's windows over the domain state.
pub struct PortfolioApp {
    pub core: CoreState,
    pub workspace: WorkspaceState,
}

impl Default for PortfolioApp {
    fn default() -> (r: Self)
        ensures
            is_fresh(r.workspace),
            r.core@.active_view == View::Home,
    {
        PortfolioApp { core: CoreState::default(), workspace: WorkspaceState::default() }
    }
}

impl PortfolioApp {
    /// Goes to `view`: the domain state records it and its workspace opens.
    pub fn navigate(&mut self, view: View, mobile: bool)
        ensures
            final(self).core@ == (CoreView { active_view: view, ..old(self).core@ }),
            activated(old(self).workspace, final(self).workspace, view, mobile),
    {
        let _r = self.core.dispatch(Command::Navigate(view));
        self.workspace.activate_view(view, mobile);
    }

    /// Opens the command palette with an empty query and the first entry
    /// selected, asking for the keyboard focus.
    pub fn open_palette(&mut self)
        ensures
            final(self).workspace == (WorkspaceState {
                palette_open: true,
                palette_query: final(self).workspace.palette_query,
                palette_selection: 0,
                palette_focus_requested: true,
                ..old(self).workspace
            }),
            final(self).workspace.palette_query@ == Seq::<char>::empty(),
            final(self).core == old(self).core,
    {
        self.workspace.palette_open = true;
        self.workspace.palette_query = String::new();
        self.workspace.palette_selection = 0;
        self.workspace.palette_focus_requested = true;
    }

    /// Closes the command palette, dropping the query.
    pub fn close_palette(&mut self)
        ensures
            final(self).workspace == (WorkspaceState {
                palette_open: false,
                palette_query: final(self).workspace.palette_query,
                palette_selection: 0,
                ..old(self).workspace
            }),
            final(self).workspace.palette_query@ == Seq::<char>::empty(),
            final(self).core == old(self).core,
    {
        self.workspace.palette_open = false;
        self.workspace.palette_query = String::new();
        self.workspace.palette_selection = 0;
    }

    /// Switches tile mode; answers whether the floating windows go back to
    /// their places, which they do when tiling ends.
    pub fn toggle_tile(&mut self) -> (reset: bool)
        ensures
            final(self).workspace == (WorkspaceState {
                tiled: !old(self).workspace.tiled,
                ..old(self).workspace
            }),
            final(self).core == old(self).core,
            reset == old(self).workspace.tiled,
    {
        self.workspace.tiled = !self.workspace.tiled;
        !self.workspace.tiled
    }

    /// Runs a palette entry's target and says what is left to the windowing
    /// layer.
    pub fn activate_palette_target(&mut self, target: PaletteTarget, mobile: bool) -> (r:
        PaletteEffect)
        ensures
            match target {
                PaletteTarget::Navigate(view) => r == PaletteEffect::Nothing && final(self).core@
                    == (CoreView { active_view: view, ..old(self).core@ }) && activated(
                    old(self).workspace,
                    final(self).workspace,
                    view,
                    mobile,
                ),
                PaletteTarget::ToggleTile => final(self).workspace == (WorkspaceState {
                    tiled: !old(self).workspace.tiled,
                    ..old(self).workspace
                }) && final(self).core == old(self).core && r == if old(self).workspace.tiled {
                    PaletteEffect::ResetWindows
                } else {
                    PaletteEffect::Nothing
                },
                PaletteTarget::Quit => r == PaletteEffect::Quit && *final(self) == *old(self),
            },
    {
        match target {
            PaletteTarget::Navigate(view) => {
                self.navigate(view, mobile);
                PaletteEffect::Nothing
            },
            PaletteTarget::ToggleTile => {
                if self.toggle_tile() {
                    PaletteEffect::ResetWindows
                } else {
                    PaletteEffect::Nothing
                }
            },
            PaletteTarget::Quit => PaletteEffect::Quit,
        }
    }

    /// Runs an action-hub action.
    pub fn apply_hub_action(&mut self, action: HubAction, mobile: bool)
        ensures
            match action {
                HubAction::EditPortfolio => final(self).core@ == (CoreView {
                    active_view: View::EditPortfolio,
                    ..old(self).core@
                }) && activated(
                    old(self).workspace,
                    final(self).workspace,
                    View::EditPortfolio,
                    mobile,
                ),
                HubAction::AddProject => final(self).core@ == (CoreView {
                    portfolio: PortfolioView {
                        projects: old(self).core@.portfolio.projects.push(empty_project()),
                        ..old(self).core@.portfolio
                    },
                    ..old(self).core@
                }) && final(self).workspace == old(self).workspace,
                HubAction::ClearHistory => final(self).core@ == (CoreView {
                    calculator: final(self).core@.calculator,
                    ..old(self).core@
                }) && after_clear_history(old(self).core@.calculator, final(self).core@.calculator)
                    && final(self).workspace == old(self).workspace,
            },
    {
        match action {
            HubAction::EditPortfolio => self.navigate(View::EditPortfolio, mobile),
            HubAction::AddProject => {
                let _r = self.core.dispatch(Command::AddProject);
            },
            HubAction::ClearHistory => {
                let _r = self.core.dispatch(Command::CalculatorClearHistory);
            },
        }
    }
}

impl PortfolioApp {
    /// Applies the typed hex color; a refusal leaves its message for the
    /// color workspace, a success clears it.
    pub fn apply_color_hex(&mut self, input: String)
        ensures
            dispatched(
                old(self).core@,
                Command::ColorApplyHex(input),
                final(self).core@,
                if hex_valid(input@) {
                    Ok(())
                } else {
                    Err(CoreError::Color(ColorError::InvalidHex))
                },
            ),
            final(self).workspace == (WorkspaceState {
                color_error: final(self).workspace.color_error,
                ..old(self).workspace
            }),
            hex_valid(input@) ==> final(self).workspace.color_error is None,
            !hex_valid(input@) ==> (final(self).workspace.color_error matches Some(m) && m@
                == "Use a 6-digit hex color such as #336699."@),
    {
        match self.core.dispatch(Command::ColorApplyHex(input)) {
            Ok(()) => {
                self.workspace.color_error = None;
            },
            Err(CoreError::Color(e)) => {
                self.workspace.color_error = Some(crate::text::string_from(e.message()));
            },
            Err(CoreError::Portfolio(_)) => {
                self.workspace.color_error = Some(crate::text::string_from("Could not apply color."));
            },
        }
    }

    /// Sets the color from the channel sliders, clearing any message.
    pub fn set_color_rgb(&mut self, rgb: [u8; 3])
        ensures
            dispatched(old(self).core@, Command::ColorSetRgb(rgb), final(self).core@, Ok(())),
            final(self).workspace == (WorkspaceState {
                color_error: None,
                ..old(self).workspace
            }),
    {
        let _r = self.core.dispatch(Command::ColorSetRgb(rgb));
        self.workspace.color_error = None;
    }
}

/// The session to start from: the stored one, or an empty one in the
/// current format when nothing was stored, brought to the current format.
pub fn session_or_default(stored: Option<SessionSnapshot>) -> (r: SessionSnapshot)
    ensures
        match stored {
            Some(s) => r@ == (SessionView { schema_version: CURRENT_SCHEMA_VERSION, ..s@ }),
            None => r@ == (SessionView {
                schema_version: CURRENT_SCHEMA_VERSION,
                ..empty_session()
            }),
        },
{
    let s = match stored {
        Some(s) => s,
        None => {
            let mut d = SessionSnapshot::default();
            d.schema_version = CURRENT_SCHEMA_VERSION;
            d
        },
    };
    migrate(s).0
}

} // verus!
