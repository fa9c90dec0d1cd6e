//! The permission mode and the rules in force.

use vstd::prelude::*;

use crate::app::{
    displayed, displayed_view, App, AppView, DisplayedRule, DisplayedRuleView, PermissionsTab,
    PermissionsTestPane, RuleOrigin, RuleSources, RuleSourcesView, TestPaneView,
};
use crate::style::{
    bare, blank_line, extend_lines, lines_view, no_lines, plain, push_line, raw, row, span, styled,
    styled_text, Color, Line, LineView, Style,
};
use crate::text::{cat3, cat4, decimal, decimal_usize};
use crate::types::{Action, PermissionMode};

verus! {

/// The names of the tabs, the open one marked.
pub open spec fn tab_names(tab: PermissionsTab) -> Seq<char> {
    match tab {
        PermissionsTab::View => " View(\u{25b6})  Edit  Audit "@,
        PermissionsTab::Edit => " View  Edit(\u{25b6})  Audit "@,
        PermissionsTab::Audit => " View  Edit  Audit(\u{25b6}) "@,
    }
}

pub open spec fn tab_rows(tab: PermissionsTab) -> Seq<LineView> {
    seq![
        row(
            seq![
                bare("  "@),
                span(tab_names(tab), plain().with_bold()),
                span("  (Tab to switch tabs)"@, plain().with_dim()),
            ],
        ),
        blank_line(),
    ]
}

fn tab_lines(tab: PermissionsTab) -> (out: Vec<Line>)
    ensures
        lines_view(out@) == tab_rows(tab),
{
    let names: &str = match tab {
        PermissionsTab::View => " View(\u{25b6})  Edit  Audit ",
        PermissionsTab::Edit => " View  Edit(\u{25b6})  Audit ",
        PermissionsTab::Audit => " View  Edit  Audit(\u{25b6}) ",
    };
    let mut out = no_lines();
    push_line(
        &mut out,
        Line::of3(
            raw("  "),
            styled(names, Style::default().bold()),
            styled("  (Tab to switch tabs)", Style::default().dim()),
        ),
    );
    push_line(&mut out, Line::blank());
    out
}

/// The mode and the latch.
pub open spec fn mode_rows(mode: PermissionMode, latched: bool) -> Seq<LineView> {
    let bold = plain().with_bold();
    let dim = plain().with_dim();
    seq![
        blank_line(),
        row(
            seq![
                bare("  "@),
                span("Mode: "@, bold),
                span(
                    match mode {
                        PermissionMode::Default => "default"@,
                        _ => mode.name(),
                    },
                    plain().with_fg(Color::Yellow),
                ),
                bare("    "@),
                span("(Tab to switch tabs / Shift+Tab cycle mode)"@, dim),
            ],
        ),
        row(
            seq![
                bare("  "@),
                span("Bypass latch: "@, bold),
                if latched {
                    span(
                        "armed (--allow-dangerously-skip-permissions)"@,
                        plain().with_fg(Color::Red),
                    )
                } else {
                    span("not armed"@, dim)
                },
            ],
        ),
        blank_line(),
        row(
            seq![
                bare("  "@),
                span("Effective rules (session > config files > built-in):"@, bold),
            ],
        ),
    ]
}

fn mode_lines(mode: PermissionMode, latched: bool) -> (out: Vec<Line>)
    ensures
        lines_view(out@) == mode_rows(mode, latched),
{
    let bold = Style::default().bold();
    let dim = Style::default().dim();
    let chip: &str = match mode {
        PermissionMode::Default => "default",
        _ => mode.chip(),
    };
    let latch = if latched {
        styled("armed (--allow-dangerously-skip-permissions)", Style::default().fg(Color::Red))
    } else {
        styled("not armed", dim)
    };
    let mut out = no_lines();
    push_line(&mut out, Line::blank());
    push_line(
        &mut out,
        Line::of5(
            raw("  "),
            styled("Mode: ", bold),
            styled(chip, Style::default().fg(Color::Yellow)),
            raw("    "),
            styled("(Tab to switch tabs / Shift+Tab cycle mode)", dim),
        ),
    );
    push_line(&mut out, Line::of3(raw("  "), styled("Bypass latch: ", bold), latch));
    push_line(&mut out, Line::blank());
    push_line(
        &mut out,
        Line::of2(raw("  "), styled("Effective rules (session > config files > built-in):", bold)),
    );
    out
}

pub open spec fn action_span(a: Action) -> crate::style::Span<Seq<char>> {
    match a {
        Action::Allow => span("Allow "@, plain().with_fg(Color::Green)),
        Action::Deny => span("Deny  "@, plain().with_fg(Color::Red)),
        Action::Ask => span("Ask   "@, plain().with_fg(Color::Yellow)),
    }
}

pub open spec fn origin_span(o: RuleOrigin<Seq<char>>) -> crate::style::Span<Seq<char>> {
    match o {
        RuleOrigin::Session => span("[session]"@, plain().with_fg(Color::Cyan)),
        RuleOrigin::File { scope, .. } => span(
            "["@ + scope.name() + "]"@,
            plain().with_fg(Color::Blue),
        ),
        RuleOrigin::Default => span("[default]"@, plain().with_dim()),
    }
}

/// The row of a rule; the one at the cursor stands out.
pub open spec fn rule_row(r: DisplayedRuleView, i: int, at_cursor: bool) -> LineView {
    LineView {
        spans: seq![
            bare(
                (if at_cursor {
                    "  >"@
                } else {
                    "   "@
                }) + " ["@ + decimal(i as nat) + "] "@,
            ),
            action_span(r.action),
            bare(r.pattern),
            bare("  "@),
            origin_span(r.origin),
        ],
        style: if at_cursor {
            plain().with_reversed()
        } else {
            plain()
        },
        alignment: None,
    }
}

fn rule_line(r: &DisplayedRule, i: usize, at_cursor: bool) -> (l: Line)
    ensures
        l@ == rule_row(r@, i as int, at_cursor),
{
    let prefix: &str = if at_cursor {
        "  >"
    } else {
        "   "
    };
    let action = match r.action {
        Action::Allow => styled("Allow ", Style::default().fg(Color::Green)),
        Action::Deny => styled("Deny  ", Style::default().fg(Color::Red)),
        Action::Ask => styled("Ask   ", Style::default().fg(Color::Yellow)),
    };
    let origin = match &r.origin {
        RuleOrigin::Session => styled("[session]", Style::default().fg(Color::Cyan)),
        RuleOrigin::File { scope, .. } => styled(
            cat3("[", scope.label(), "]").as_str(),
            Style::default().fg(Color::Blue),
        ),
        RuleOrigin::Default => styled("[default]", Style::default().dim()),
    };
    let mut l = Line::of5(
        raw(cat4(prefix, " [", decimal_usize(i).as_str(), "] ").as_str()),
        action,
        raw(r.pattern.as_str()),
        raw("  "),
        origin,
    );
    if at_cursor {
        l.style = Style::default().reversed();
    }
    l
}

/// The row that a cursor marks among so many.
pub open spec fn marked(cursor: int, n: int) -> int {
    if cursor < n {
        cursor
    } else {
        n - 1
    }
}

pub open spec fn rule_rows(rules: Seq<DisplayedRuleView>, cursor: int) -> Seq<LineView> {
    if rules.len() == 0 {
        seq![styled_text("    (none)"@, plain().with_dim())]
    } else {
        Seq::new(
            rules.len(),
            |i: int| rule_row(rules[i], i, i == marked(cursor, rules.len() as int)),
        )
    }
}

fn rule_lines(rules: &Vec<DisplayedRule>, cursor: usize) -> (out: Vec<Line>)
    ensures
        lines_view(out@) == rule_rows(displayed_view(rules@), cursor as int),
{
    let ghost all = displayed_view(rules@);
    let ghost rows = rule_rows(all, cursor as int);
    let mut out = no_lines();
    if rules.len() == 0 {
        push_line(&mut out, Line::styled("    (none)", Style::default().dim()));
        return out;
    }
    let at: usize = if cursor < rules.len() {
        cursor
    } else {
        rules.len() - 1
    };
    let mut i: usize = 0;
    assert(lines_view(out@) =~= rows.take(0));
    while i < rules.len()
        invariant
            i <= rules@.len(),
            rules@.len() > 0,
            all == displayed_view(rules@),
            rows == rule_rows(all, cursor as int),
            at == marked(cursor as int, rules@.len() as int),
            lines_view(out@) == rows.take(i as int),
        decreases rules@.len() - i,
    {
        push_line(&mut out, rule_line(&rules[i], i, i == at));
        assert(all[i as int] == rules@[i as int]@);
        i = i + 1;
        assert(rows.take(i as int) =~= rows.take(i - 1).push(rows[i - 1]));
    }
    assert(rows.take(i as int) =~= rows);
    out
}

/// A field of the test pane; the one that is edited stands out.
pub open spec fn field_row(label: Seq<char>, text: Seq<char>, focused: bool) -> LineView {
    row(
        seq![
            bare(label),
            span(
                text,
                if focused {
                    plain().with_reversed()
                } else {
                    plain().with_fg(Color::Cyan)
                },
            ),
        ],
    )
}

fn field_line(label: &str, text: &str, focused: bool) -> (l: Line)
    ensures
        l@ == field_row(label@, text@, focused),
{
    let style = if focused {
        Style::default().reversed()
    } else {
        Style::default().fg(Color::Cyan)
    };
    Line::of2(raw(label), styled(text, style))
}

/// The test pane with what it last found.
pub open spec fn pane_rows(p: TestPaneView) -> Seq<LineView> {
    let head = seq![
        blank_line(),
        row(
            seq![
                bare("  "@),
                span("Test pane:"@, plain().with_bold()),
                span("  Enter to run  Esc to close"@, plain().with_dim()),
            ],
        ),
        field_row("  tool: "@, p.tool_name, p.focus == 0),
        field_row("  json: "@, p.input_json, p.focus == 1),
    ];
    match p.last_outcome {
        Some(o) => head.push(
            row(seq![bare("  result: "@), span(o, plain().with_fg(Color::Yellow))]),
        ),
        None => head,
    }
}

fn pane_lines(p: &PermissionsTestPane) -> (out: Vec<Line>)
    ensures
        lines_view(out@) == pane_rows(p@),
{
    let mut out = no_lines();
    push_line(&mut out, Line::blank());
    push_line(
        &mut out,
        Line::of3(
            raw("  "),
            styled("Test pane:", Style::default().bold()),
            styled("  Enter to run  Esc to close", Style::default().dim()),
        ),
    );
    push_line(&mut out, field_line("  tool: ", p.tool_name.as_str(), p.focus == 0));
    push_line(&mut out, field_line("  json: ", p.input_json.as_str(), p.focus == 1));
    if let Some(o) = &p.last_outcome {
        push_line(
            &mut out,
            Line::of2(raw("  result: "), styled(o.as_str(), Style::default().fg(Color::Yellow))),
        );
    }
    out
}

/// The keys of a tab, and the test pane where it is open.
pub open spec fn hint_rows(tab: PermissionsTab, pane: Option<TestPaneView>) -> Seq<LineView> {
    let dim = plain().with_dim();
    let tip = styled_text(
        "  Tip: [d] deletes from the rule's source file; managed and defaults are read-only."@,
        dim,
    );
    if tab == PermissionsTab::Edit {
        let keys = seq![
            styled_text(
                "  Edit: [a] add rule  [d] delete rule  [p] promote to file  [t] test pane"@,
                dim,
            ),
            styled_text("  Nav:  \u{2191}\u{2193}/jk move  Esc/q close"@, dim),
            tip,
        ];
        match pane {
            Some(p) => keys + pane_rows(p),
            None => keys,
        }
    } else {
        seq![
            styled_text(
                "  Keys: Tab switch tab  Shift+Tab cycle mode  d delete rule  \u{2191}\u{2193}/jk move  Esc/q close"@,
                dim,
            ),
            tip,
        ]
    }
}

pub open spec fn opt_pane(o: Option<PermissionsTestPane>) -> Option<TestPaneView> {
    match o {
        Some(p) => Some(p@),
        None => None,
    }
}

fn hint_lines(tab: PermissionsTab, pane: &Option<PermissionsTestPane>) -> (out: Vec<Line>)
    ensures
        lines_view(out@) == hint_rows(tab, opt_pane(*pane)),
{
    let dim = Style::default().dim();
    let mut out = no_lines();
    if tab == PermissionsTab::Edit {
        push_line(
            &mut out,
            Line::styled(
                "  Edit: [a] add rule  [d] delete rule  [p] promote to file  [t] test pane",
                dim,
            ),
        );
        push_line(&mut out, Line::styled("  Nav:  \u{2191}\u{2193}/jk move  Esc/q close", dim));
    } else {
        push_line(
            &mut out,
            Line::styled(
                "  Keys: Tab switch tab  Shift+Tab cycle mode  d delete rule  \u{2191}\u{2193}/jk move  Esc/q close",
                dim,
            ),
        );
    }
    push_line(
        &mut out,
        Line::styled(
            "  Tip: [d] deletes from the rule's source file; managed and defaults are read-only.",
            dim,
        ),
    );
    if tab == PermissionsTab::Edit {
        if let Some(p) = pane {
            extend_lines(&mut out, pane_lines(p));
        }
    }
    out
}

/// Whether there is a record of decisions.
pub open spec fn audit_rows(logged: bool) -> Seq<LineView> {
    let dim = plain().with_dim();
    seq![
        blank_line(),
        styled_text(
            if logged {
                "Audit log present. Run `caliban perms audit` for the full viewer."@
            } else {
                "Audit log empty (enable with permissions.audit_log = true)."@
            },
            dim,
        ),
        blank_line(),
        styled_text("  Keys: Tab switch tab  Esc/q close"@, dim),
    ]
}

fn audit_lines(logged: bool) -> (out: Vec<Line>)
    ensures
        lines_view(out@) == audit_rows(logged),
{
    let dim = Style::default().dim();
    let text: &str = if logged {
        "Audit log present. Run `caliban perms audit` for the full viewer."
    } else {
        "Audit log empty (enable with permissions.audit_log = true)."
    };
    let mut out = no_lines();
    push_line(&mut out, Line::blank());
    push_line(&mut out, Line::styled(text, dim));
    push_line(&mut out, Line::blank());
    push_line(&mut out, Line::styled("  Keys: Tab switch tab  Esc/q close", dim));
    out
}

/// The open tab: the mode with the rules in force and what can be done with
/// them, or the record of decisions.
pub open spec fn rules_page(app: AppView, rules: RuleSourcesView, logged: bool) -> Seq<LineView> {
    let tab = app.permissions.tab;
    if tab == PermissionsTab::Audit {
        tab_rows(tab) + audit_rows(logged)
    } else {
        (tab_rows(tab) + mode_rows(app.permission_mode, app.bypass_latch) + rule_rows(
            displayed(app.runtime_rules, rules),
            app.permissions.cursor as int,
        )).push(blank_line()) + hint_rows(tab, app.permissions_test)
    }
}

/// The open tab. `logged` says whether there is a record of decisions.
pub fn permissions_lines(app: &App, rules: &RuleSources, logged: bool) -> (out: Vec<Line>)
    ensures
        lines_view(out@) == rules_page(app@, rules@, logged),
{
    let tab = app.permissions.tab;
    let mut out = tab_lines(tab);
    if tab == PermissionsTab::Audit {
        extend_lines(&mut out, audit_lines(logged));
        return out;
    }
    extend_lines(&mut out, mode_lines(app.permission_mode, app.bypass_latch));
    let shown = app.displayed_rules(rules);
    extend_lines(&mut out, rule_lines(&shown, app.permissions.cursor));
    push_line(&mut out, Line::blank());
    extend_lines(&mut out, hint_lines(tab, &app.permissions_test));
    out
}

/// A row is marked whenever there are rules, and only one.
pub proof fn law_one_rule_is_marked(rules: Seq<DisplayedRuleView>, cursor: int, i: int, j: int)
    requires
        rules.len() > 0,
        0 <= cursor,
        0 <= i < rules.len(),
        0 <= j < rules.len(),
    ensures
        0 <= marked(cursor, rules.len() as int) < rules.len(),
        rule_rows(rules, cursor)[i].style.reversed && rule_rows(rules, cursor)[j].style.reversed
            ==> i == j,
        rule_rows(rules, cursor)[marked(cursor, rules.len() as int)].style.reversed,
{
}

/// The open tab is marked among the three.
pub proof fn law_the_open_tab_is_marked(tab: PermissionsTab)
    ensures
        tab_rows(tab).len() == 2,
        tab_rows(tab)[0].spans[1].content == (match tab {
            PermissionsTab::View => " View(\u{25b6})  Edit  Audit "@,
            PermissionsTab::Edit => " View  Edit(\u{25b6})  Audit "@,
            PermissionsTab::Audit => " View  Edit  Audit(\u{25b6}) "@,
        }),
        tab_rows(tab)[0].spans[2].content == "  (Tab to switch tabs)"@,
{
}

/// The mode is named, and the latch is told as it is.
pub proof fn law_mode_and_latch_are_told(mode: PermissionMode, latched: bool)
    ensures
        mode_rows(mode, latched).len() == 5,
        mode_rows(mode, latched)[1].spans[1].content == "Mode: "@,
        mode == PermissionMode::Default ==> mode_rows(mode, latched)[1].spans[2].content
            == "default"@,
        mode != PermissionMode::Default ==> mode_rows(mode, latched)[1].spans[2].content
            == mode.name(),
        mode_rows(mode, latched)[2].spans[1].content == "Bypass latch: "@,
        latched ==> mode_rows(mode, latched)[2].spans[2] == span(
            "armed (--allow-dangerously-skip-permissions)"@,
            plain().with_fg(Color::Red),
        ),
        !latched ==> mode_rows(mode, latched)[2].spans[2] == span(
            "not armed"@,
            plain().with_dim(),
        ),
        mode_rows(mode, latched)[4].spans[1].content
            == "Effective rules (session > config files > built-in):"@,
{
}

/// A rule is told by its number, what it does, its pattern and where it
/// comes from; the one at the cursor is reversed behind a mark.
pub proof fn law_rules_are_told(r: DisplayedRuleView, i: int, at_cursor: bool)
    ensures
        ({
            let l = rule_row(r, i, at_cursor);
            &&& l.spans.len() == 5
            &&& at_cursor ==> l.spans[0].content == "  >"@ + " ["@ + decimal(i as nat) + "] "@
            &&& !at_cursor ==> l.spans[0].content == "   "@ + " ["@ + decimal(i as nat) + "] "@
            &&& l.spans[1].content == (match r.action {
                Action::Allow => "Allow "@,
                Action::Deny => "Deny  "@,
                Action::Ask => "Ask   "@,
            })
            &&& l.spans[1].style.fg == Some(
                match r.action {
                    Action::Allow => Color::Green,
                    Action::Deny => Color::Red,
                    Action::Ask => Color::Yellow,
                },
            )
            &&& l.spans[2].content == r.pattern
            &&& l.spans[3].content == "  "@
            &&& l.spans[4].content == (match r.origin {
                RuleOrigin::Session => "[session]"@,
                RuleOrigin::File { scope, .. } => "["@ + scope.name() + "]"@,
                RuleOrigin::Default => "[default]"@,
            })
            &&& at_cursor <==> l.style.reversed
        }),
{
}

/// The rules have a row each in their order; the marked one is at the
/// cursor, or the last where the cursor is behind it.
pub proof fn law_rules_are_listed(rules: Seq<DisplayedRuleView>, cursor: int, i: int)
    ensures
        rule_rows(Seq::empty(), cursor) == seq![styled_text("    (none)"@, plain().with_dim())],
        rules.len() > 0 ==> rule_rows(rules, cursor).len() == rules.len(),
        0 <= i < rules.len() && cursor < rules.len() ==> rule_rows(rules, cursor)[i] == rule_row(
            rules[i],
            i,
            i == cursor,
        ),
        0 <= i < rules.len() && cursor >= rules.len() ==> rule_rows(rules, cursor)[i] == rule_row(
            rules[i],
            i,
            i == rules.len() - 1,
        ),
{
}

/// The test pane shows its two fields, the one that is edited reversed, and
/// what it last found, where it found anything.
pub proof fn law_the_pane_shows_its_fields(p: TestPaneView)
    ensures
        pane_rows(p)[1].spans[1].content == "Test pane:"@,
        pane_rows(p)[2].spans[0].content == "  tool: "@,
        pane_rows(p)[2].spans[1].content == p.tool_name,
        pane_rows(p)[2].spans[1].style.reversed <==> p.focus == 0,
        pane_rows(p)[3].spans[0].content == "  json: "@,
        pane_rows(p)[3].spans[1].content == p.input_json,
        pane_rows(p)[3].spans[1].style.reversed <==> p.focus == 1,
        p.last_outcome is None ==> pane_rows(p).len() == 4,
        p.last_outcome is Some ==> pane_rows(p).len() == 5 && pane_rows(p)[4].spans[0].content
            == "  result: "@ && pane_rows(p)[4].spans[1].content == p.last_outcome->0,
{
}

/// The keys are those of the open tab; the pane shows below those of the
/// tab for editing alone.
pub proof fn law_keys_go_by_the_tab(tab: PermissionsTab, pane: Option<TestPaneView>)
    ensures
        tab == PermissionsTab::Edit ==> hint_rows(tab, pane)[0] == styled_text(
            "  Edit: [a] add rule  [d] delete rule  [p] promote to file  [t] test pane"@,
            plain().with_dim(),
        ),
        tab == PermissionsTab::Edit ==> hint_rows(tab, pane)[1] == styled_text(
            "  Nav:  \u{2191}\u{2193}/jk move  Esc/q close"@,
            plain().with_dim(),
        ),
        tab == PermissionsTab::Edit && pane is None ==> hint_rows(tab, pane).len() == 3,
        tab == PermissionsTab::Edit && pane is Some ==> hint_rows(tab, pane).skip(3) == pane_rows(
            pane->0,
        ),
        tab != PermissionsTab::Edit ==> hint_rows(tab, pane).len() == 2,
        tab != PermissionsTab::Edit ==> hint_rows(tab, pane)[0] == styled_text(
            "  Keys: Tab switch tab  Shift+Tab cycle mode  d delete rule  \u{2191}\u{2193}/jk move  Esc/q close"@,
            plain().with_dim(),
        ),
        hint_rows(tab, pane)[if tab == PermissionsTab::Edit {
            2int
        } else {
            1int
        }] == styled_text(
            "  Tip: [d] deletes from the rule's source file; managed and defaults are read-only."@,
            plain().with_dim(),
        ),
{
    if tab == PermissionsTab::Edit && pane is Some {
        assert(hint_rows(tab, pane).skip(3) =~= pane_rows(pane->0));
    }
}

/// The record of decisions shows on its own tab, where there is one; the
/// other tabs show the mode, the rules in force and the keys.
pub proof fn law_tabs_show_their_page(app: AppView, rules: RuleSourcesView, logged: bool)
    ensures
        app.permissions.tab == PermissionsTab::Audit ==> rules_page(app, rules, logged) == tab_rows(
            PermissionsTab::Audit,
        ) + audit_rows(logged),
        app.permissions.tab != PermissionsTab::Audit ==> rules_page(app, rules, logged) == tab_rows(
            app.permissions.tab,
        ) + mode_rows(app.permission_mode, app.bypass_latch) + rule_rows(
            displayed(app.runtime_rules, rules),
            app.permissions.cursor as int,
        ) + seq![blank_line()] + hint_rows(app.permissions.tab, app.permissions_test),
        audit_rows(logged).len() == 4,
        logged ==> audit_rows(logged)[1] == styled_text(
            "Audit log present. Run `caliban perms audit` for the full viewer."@,
            plain().with_dim(),
        ),
        !logged ==> audit_rows(logged)[1] == styled_text(
            "Audit log empty (enable with permissions.audit_log = true)."@,
            plain().with_dim(),
        ),
        audit_rows(logged)[3] == styled_text(
            "  Keys: Tab switch tab  Esc/q close"@,
            plain().with_dim(),
        ),
{
    let tab = app.permissions.tab;
    let rows = tab_rows(tab) + mode_rows(app.permission_mode, app.bypass_latch) + rule_rows(
        displayed(app.runtime_rules, rules),
        app.permissions.cursor as int,
    );
    assert(rows.push(blank_line()) =~= rows + seq![blank_line()]);
}

} // verus!
