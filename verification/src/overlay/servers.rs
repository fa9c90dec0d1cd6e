//! The servers that tools come from.

use vstd::prelude::*;

use crate::style::{
    bare, blank_line, lines_view, no_lines, plain, push_line, push_span, raw, row, span, styled,
    styled_text, text_line, Color, Line, LineView, Span, Style,
};
use crate::text::{cat2, cat3, cat4, decimal, decimal_usize, pad_right, padded_right, texts};

verus! {

/// How a server does.
#[derive(Debug)]
pub enum ServerStatus<S = String> {
    /// It offers so many tools.
    Connected { tools: usize },
    Failed { reason: S },
    Disabled,
}

#[derive(Debug)]
pub struct McpServer<S = String> {
    pub name: S,
    pub transport: S,
    pub status: ServerStatus<S>,
}

impl View for McpServer<String> {
    type V = McpServer<Seq<char>>;

    open spec fn view(&self) -> McpServer<Seq<char>> {
        McpServer {
            name: self.name@,
            transport: self.transport@,
            status: match self.status {
                ServerStatus::Connected { tools } => ServerStatus::Connected { tools },
                ServerStatus::Failed { reason } => ServerStatus::Failed { reason: reason@ },
                ServerStatus::Disabled => ServerStatus::Disabled,
            },
        }
    }
}

pub open spec fn servers_view(v: Seq<McpServer<String>>) -> Seq<McpServer<Seq<char>>> {
    Seq::new(v.len(), |i: int| v[i]@)
}

/// How a server does, in words.
pub open spec fn status_text(s: ServerStatus<Seq<char>>) -> Seq<char> {
    match s {
        ServerStatus::Connected { tools } => "connected \u{2014} "@ + decimal(tools as nat)
            + " tool"@ + (if tools == 1 {
            ""@
        } else {
            "s"@
        }),
        ServerStatus::Failed { reason } => "failed: "@ + reason,
        ServerStatus::Disabled => "disabled by mcp.toml"@,
    }
}

/// The mark of a server: filled while it is connected.
pub open spec fn glyph(s: ServerStatus<Seq<char>>) -> Span<Seq<char>> {
    match s {
        ServerStatus::Connected { .. } => span("\u{25cf}"@, plain().with_fg(Color::Green)),
        ServerStatus::Failed { .. } => span("\u{25cb}"@, plain().with_fg(Color::Red)),
        ServerStatus::Disabled => span("\u{25cb}"@, plain().with_dim()),
    }
}

pub open spec fn status_style(s: ServerStatus<Seq<char>>) -> Style {
    match s {
        ServerStatus::Connected { .. } => plain(),
        ServerStatus::Failed { .. } => plain().with_fg(Color::Red),
        ServerStatus::Disabled => plain().with_dim(),
    }
}

/// The row of a server.
pub open spec fn server_row(s: McpServer<Seq<char>>) -> LineView {
    row(
        seq![
            bare("   "@),
            glyph(s.status),
            bare(" "@),
            bare(pad_right(s.name, 12)),
            bare(" "@),
            span(pad_right(s.transport, 6), plain().with_fg(Color::Cyan)),
            bare(" "@),
            span(status_text(s.status), status_style(s.status)),
        ],
    )
}

fn server_line(s: &McpServer) -> (l: Line)
    ensures
        l@ == server_row(s@),
{
    let (mark, text) = match &s.status {
        ServerStatus::Connected { tools } => (
            styled("\u{25cf}", Style::default().fg(Color::Green)),
            styled(
                cat4(
                    "connected \u{2014} ",
                    decimal_usize(*tools).as_str(),
                    " tool",
                    if *tools == 1 {
                        ""
                    } else {
                        "s"
                    },
                ).as_str(),
                Style::default(),
            ),
        ),
        ServerStatus::Failed { reason } => (
            styled("\u{25cb}", Style::default().fg(Color::Red)),
            styled(cat2("failed: ", reason.as_str()).as_str(), Style::default().fg(Color::Red)),
        ),
        ServerStatus::Disabled => (
            styled("\u{25cb}", Style::default().dim()),
            styled("disabled by mcp.toml", Style::default().dim()),
        ),
    };
    let mut l = Line::of3(raw("   "), mark, raw(" "));
    push_span(&mut l.spans, raw(padded_right(s.name.as_str(), 12).as_str()));
    push_span(&mut l.spans, raw(" "));
    push_span(
        &mut l.spans,
        styled(padded_right(s.transport.as_str(), 6).as_str(), Style::default().fg(Color::Cyan)),
    );
    push_span(&mut l.spans, raw(" "));
    push_span(&mut l.spans, text);
    l
}

pub open spec fn server_rows(list: Seq<McpServer<Seq<char>>>) -> Seq<LineView> {
    Seq::new(list.len(), |i: int| server_row(list[i]))
}

/// A file that servers are read from, and whose it is.
pub open spec fn path_text(path: Seq<char>, whose: Seq<char>) -> Seq<char> {
    "     "@ + path + whose
}

pub open spec fn path_rows(paths: Seq<Seq<char>>, style: Style) -> Seq<LineView> {
    Seq::new(paths.len(), |i: int| styled_text(path_text(paths[i], " (user)"@), style))
}

/// Where servers can be set up, when there are none.
pub open spec fn no_servers_page(paths: Seq<Seq<char>>, project: Seq<char>) -> Seq<LineView> {
    let dim = plain().with_dim();
    seq![
        blank_line(),
        text_line("   No MCP servers configured."@),
        blank_line(),
        text_line("   Configure servers at one of:"@),
    ] + path_rows(paths, plain()) + seq![
        text_line(path_text(project, " (project)"@)),
        blank_line(),
        text_line("   Minimal stdio example:"@),
        blank_line(),
        text_line("     [server.silverbullet]"@),
        text_line("     command = \"sb-mcp\""@),
        text_line("     args = [\"--vault\", \"~/notes\"]"@),
        blank_line(),
        text_line("   HTTP example:"@),
        blank_line(),
        text_line("     [server.silverbullet]"@),
        text_line("     type = \"http\""@),
        text_line("     url  = \"https://mcp.silverbullet.example/mcp\""@),
        blank_line(),
        styled_text("   See `caliban-mcp-client` and ADR 0023 (transports + OAuth)."@, dim),
        blank_line(),
        styled_text("  Press q or Esc to close."@, dim),
    ]
}

/// The servers, and where they are set up.
pub open spec fn servers_page(
    list: Seq<McpServer<Seq<char>>>,
    paths: Seq<Seq<char>>,
    project: Seq<char>,
) -> Seq<LineView> {
    let dim = plain().with_dim();
    if list.len() == 0 {
        no_servers_page(paths, project)
    } else {
        (seq![blank_line(), text_line("   MCP servers:"@), blank_line()] + server_rows(list)).push(
            blank_line(),
        ).push(styled_text("   Config paths:"@, dim)) + path_rows(paths, dim) + seq![
            styled_text(path_text(project, " (project)"@), dim),
            blank_line(),
            styled_text(
                "   Glyphs: \u{25CF} connected \u{b7} \u{25D0} needs reauth \u{b7} \u{25CB} disabled/failed"@,
                dim,
            ),
            styled_text(
                "   [d] disable \u{b7} [r] reload \u{b7} [a] start OAuth \u{b7} [s] view stderr \u{b7} [t] tools"@,
                dim,
            ),
            blank_line(),
            styled_text("  Press q or Esc to close."@, dim),
        ]
    }
}

fn push_paths(paths: &Vec<String>, style: Style, out: &mut Vec<Line>)
    ensures
        lines_view(final(out)@) == lines_view(old(out)@) + path_rows(texts(paths@), style),
{
    let ghost head = lines_view(out@);
    let ghost rows = path_rows(texts(paths@), style);
    let mut i: usize = 0;
    assert(head + rows.take(0) =~= head);
    while i < paths.len()
        invariant
            i <= paths@.len(),
            rows == path_rows(texts(paths@), style),
            lines_view(out@) == head + rows.take(i as int),
        decreases paths@.len() - i,
    {
        push_line(
            out,
            Line::styled(cat3("     ", paths[i].as_str(), " (user)").as_str(), style),
        );
        i = i + 1;
        assert(texts(paths@)[i - 1] == paths@[i - 1]@);
        assert(rows.take(i as int) =~= rows.take(i - 1).push(rows[i - 1]));
        assert((head + rows.take(i - 1)).push(rows[i - 1]) =~= head + rows.take(i as int));
    }
    assert(texts(paths@).len() == paths@.len());
    assert(rows.take(i as int) =~= rows);
}

fn push_servers(list: &Vec<McpServer>, out: &mut Vec<Line>)
    ensures
        lines_view(final(out)@) == lines_view(old(out)@) + server_rows(servers_view(list@)),
{
    let ghost head = lines_view(out@);
    let ghost rows = server_rows(servers_view(list@));
    let mut i: usize = 0;
    assert(head + rows.take(0) =~= head);
    while i < list.len()
        invariant
            i <= list@.len(),
            rows == server_rows(servers_view(list@)),
            lines_view(out@) == head + rows.take(i as int),
        decreases list@.len() - i,
    {
        push_line(out, server_line(&list[i]));
        i = i + 1;
        assert(rows.take(i as int) =~= rows.take(i - 1).push(rows[i - 1]));
        assert((head + rows.take(i - 1)).push(rows[i - 1]) =~= head + rows.take(i as int));
    }
    assert(rows.take(i as int) =~= rows);
}

fn no_servers_lines(paths: &Vec<String>, project: &str) -> (out: Vec<Line>)
    ensures
        lines_view(out@) == no_servers_page(texts(paths@), project@),
{
    let dim = Style::default().dim();
    let mut out = no_lines();
    push_line(&mut out, Line::blank());
    push_line(&mut out, Line::raw("   No MCP servers configured."));
    push_line(&mut out, Line::blank());
    push_line(&mut out, Line::raw("   Configure servers at one of:"));
    push_paths(paths, Style::default(), &mut out);
    push_line(&mut out, Line::raw(cat3("     ", project, " (project)").as_str()));
    push_line(&mut out, Line::blank());
    push_line(&mut out, Line::raw("   Minimal stdio example:"));
    push_line(&mut out, Line::blank());
    push_line(&mut out, Line::raw("     [server.silverbullet]"));
    push_line(&mut out, Line::raw("     command = \"sb-mcp\""));
    push_line(&mut out, Line::raw("     args = [\"--vault\", \"~/notes\"]"));
    push_line(&mut out, Line::blank());
    push_line(&mut out, Line::raw("   HTTP example:"));
    push_line(&mut out, Line::blank());
    push_line(&mut out, Line::raw("     [server.silverbullet]"));
    push_line(&mut out, Line::raw("     type = \"http\""));
    push_line(&mut out, Line::raw("     url  = \"https://mcp.silverbullet.example/mcp\""));
    push_line(&mut out, Line::blank());
    push_line(
        &mut out,
        Line::styled("   See `caliban-mcp-client` and ADR 0023 (transports + OAuth).", dim),
    );
    push_line(&mut out, Line::blank());
    push_line(&mut out, Line::styled("  Press q or Esc to close.", dim));
    assert(lines_view(out@) =~= no_servers_page(texts(paths@), project@));
    out
}

/// The servers, and where they are set up: in one of `paths` or in
/// `project`.
pub fn mcp_lines(list: &Vec<McpServer>, paths: &Vec<String>, project: &str) -> (out: Vec<Line>)
    ensures
        lines_view(out@) == servers_page(servers_view(list@), texts(paths@), project@),
{
    if list.len() == 0 {
        return no_servers_lines(paths, project);
    }
    let dim = Style::default().dim();
    let mut out = no_lines();
    push_line(&mut out, Line::blank());
    push_line(&mut out, Line::raw("   MCP servers:"));
    push_line(&mut out, Line::blank());
    push_servers(list, &mut out);
    push_line(&mut out, Line::blank());
    push_line(&mut out, Line::styled("   Config paths:", dim));
    push_paths(paths, dim, &mut out);
    push_line(&mut out, Line::styled(cat3("     ", project, " (project)").as_str(), dim));
    push_line(&mut out, Line::blank());
    push_line(
        &mut out,
        Line::styled(
            "   Glyphs: \u{25CF} connected \u{b7} \u{25D0} needs reauth \u{b7} \u{25CB} disabled/failed",
            dim,
        ),
    );
    push_line(
        &mut out,
        Line::styled(
            "   [d] disable \u{b7} [r] reload \u{b7} [a] start OAuth \u{b7} [s] view stderr \u{b7} [t] tools",
            dim,
        ),
    );
    push_line(&mut out, Line::blank());
    push_line(&mut out, Line::styled("  Press q or Esc to close.", dim));
    assert(lines_view(out@) =~= servers_page(servers_view(list@), texts(paths@), project@));
    out
}

/// A server is told by its mark, its name, how it is reached and how it
/// does: green and filled while it is connected, red where it failed, dim
/// where it is disabled.
pub proof fn law_servers_are_told(s: McpServer<Seq<char>>)
    ensures
        ({
            let l = server_row(s);
            &&& l.spans.len() == 8
            &&& l.spans[3].content == pad_right(s.name, 12)
            &&& l.spans[5].content == pad_right(s.transport, 6)
            &&& match s.status {
                ServerStatus::Connected { tools } => {
                    &&& l.spans[1] == span("\u{25cf}"@, plain().with_fg(Color::Green))
                    &&& l.spans[7].style == plain()
                    &&& tools == 1 ==> l.spans[7].content == "connected \u{2014} "@ + decimal(1)
                        + " tool"@
                    &&& tools != 1 ==> l.spans[7].content == "connected \u{2014} "@ + decimal(
                        tools as nat,
                    ) + " tool"@ + "s"@
                },
                ServerStatus::Failed { reason } => {
                    &&& l.spans[1] == span("\u{25cb}"@, plain().with_fg(Color::Red))
                    &&& l.spans[7] == span("failed: "@ + reason, plain().with_fg(Color::Red))
                },
                ServerStatus::Disabled => {
                    &&& l.spans[1] == span("\u{25cb}"@, plain().with_dim())
                    &&& l.spans[7] == span("disabled by mcp.toml"@, plain().with_dim())
                },
            }
        }),
{
    reveal_strlit("");
    let one = "connected \u{2014} "@ + decimal(1) + " tool"@;
    assert(one + ""@ =~= one);
}

/// The servers are listed in their order, then the files that they are read
/// from, the project's last; without servers the files come with how to set
/// one up.
pub proof fn law_servers_and_files_are_listed(
    list: Seq<McpServer<Seq<char>>>,
    paths: Seq<Seq<char>>,
    project: Seq<char>,
    i: int,
)
    ensures
        ({
            let page = servers_page(list, paths, project);
            let n = list.len() as int;
            let m = paths.len() as int;
            let dim = plain().with_dim();
            &&& n > 0 ==> page.len() == n + m + 11
            &&& n > 0 ==> page[1] == text_line("   MCP servers:"@)
            &&& 0 <= i < n ==> page[i + 3] == server_row(list[i])
            &&& n > 0 ==> page[n + 4] == styled_text("   Config paths:"@, dim)
            &&& n > 0 && 0 <= i < m ==> page[n + 5 + i] == styled_text(
                "     "@ + paths[i] + " (user)"@,
                dim,
            )
            &&& n > 0 ==> page[n + 5 + m] == styled_text("     "@ + project + " (project)"@, dim)
            &&& n == 0 ==> page[1] == text_line("   No MCP servers configured."@)
            &&& n == 0 && 0 <= i < m ==> page[4 + i] == styled_text(
                "     "@ + paths[i] + " (user)"@,
                plain(),
            )
            &&& n == 0 ==> page[4 + m] == text_line("     "@ + project + " (project)"@)
            &&& n == 0 ==> page.len() == m + 21
            &&& page.last() == styled_text("  Press q or Esc to close."@, dim)
        }),
{
}

/// The columns of a server's row are parted by blanks, and its transport is
/// cyan.
pub proof fn law_server_columns_are_parted(s: McpServer<Seq<char>>)
    ensures
        server_row(s).spans[0] == bare("   "@),
        server_row(s).spans[2] == bare(" "@),
        server_row(s).spans[3].style == plain(),
        server_row(s).spans[4] == bare(" "@),
        server_row(s).spans[5].style == plain().with_fg(Color::Cyan),
        server_row(s).spans[6] == bare(" "@),
{
}

/// Without servers the page shows how one is set up, over a pipe and over
/// the network.
pub proof fn law_the_empty_page_shows_how_to_begin(paths: Seq<Seq<char>>, project: Seq<char>)
    ensures
        ({
            let page = servers_page(Seq::empty(), paths, project);
            let m = paths.len() as int;
            &&& page[3] == text_line("   Configure servers at one of:"@)
            &&& page[m + 6] == text_line("   Minimal stdio example:"@)
            &&& page[m + 8] == text_line("     [server.silverbullet]"@)
            &&& page[m + 9] == text_line("     command = \"sb-mcp\""@)
            &&& page[m + 10] == text_line("     args = [\"--vault\", \"~/notes\"]"@)
            &&& page[m + 12] == text_line("   HTTP example:"@)
            &&& page[m + 14] == text_line("     [server.silverbullet]"@)
            &&& page[m + 15] == text_line("     type = \"http\""@)
            &&& page[m + 16] == text_line(
                "     url  = \"https://mcp.silverbullet.example/mcp\""@,
            )
            &&& page[m + 18] == styled_text(
                "   See `caliban-mcp-client` and ADR 0023 (transports + OAuth)."@,
                plain().with_dim(),
            )
        }),
{
}

/// With servers the page closes with what their marks and the keys mean.
pub proof fn law_the_page_explains_its_marks(
    list: Seq<McpServer<Seq<char>>>,
    paths: Seq<Seq<char>>,
    project: Seq<char>,
)
    requires
        list.len() > 0,
    ensures
        ({
            let page = servers_page(list, paths, project);
            let n = list.len() + paths.len() as int;
            &&& page[n + 7] == styled_text(
                "   Glyphs: \u{25CF} connected \u{b7} \u{25D0} needs reauth \u{b7} \u{25CB} disabled/failed"@,
                plain().with_dim(),
            )
            &&& page[n + 8] == styled_text(
                "   [d] disable \u{b7} [r] reload \u{b7} [a] start OAuth \u{b7} [s] view stderr \u{b7} [t] tools"@,
                plain().with_dim(),
            )
        }),
{
}

} // verus!
