//! The help index: one entry per command, sorted by name, and its rendering.
use vstd::prelude::*;
use crate::binder::params_view;
use crate::error::Result;
use crate::paint::strikethrough;
use crate::parameter::{opt_view, Parameter, ParameterView};

verus! {

/// What help shows of one command.
#[derive(Debug)]
pub struct HelpEntry {
    pub command: String,
    /// Each parameter's name, and whether it is required.
    pub parameters: Vec<(String, bool)>,
    pub summary: Option<String>,
}

pub struct HelpEntryView {
    pub command: Seq<char>,
    pub parameters: Seq<(Seq<char>, bool)>,
    pub summary: Option<Seq<char>>,
}

impl View for HelpEntry {
    type V = HelpEntryView;

    open spec fn view(&self) -> HelpEntryView {
        HelpEntryView {
            command: self.command@,
            parameters: self.parameters@.map_values(|p: (String, bool)| (p.0@, p.1)),
            summary: opt_view(self.summary),
        }
    }
}

/// The help entry of a command with the given name, parameters and summary.
pub open spec fn entry_of(
    name: Seq<char>,
    ps: Seq<ParameterView>,
    summary: Option<Seq<char>>,
) -> HelpEntryView {
    HelpEntryView {
        command: name,
        parameters: ps.map_values(|p: ParameterView| (p.name, p.required)),
        summary,
    }
}

impl HelpEntry {
    pub fn new(command_name: &str, parameters: &[Parameter], summary: &Option<String>) -> (r: HelpEntry)
        ensures
            r@ == entry_of(command_name@, params_view(parameters@), opt_view(*summary)),
    {
        let mut ps: Vec<(String, bool)> = Vec::new();
        let mut i: usize = 0;
        while i < parameters.len()
            invariant
                i <= parameters.len(),
                ps.len() == i,
                ps@.map_values(|p: (String, bool)| (p.0@, p.1)) == params_view(parameters@).take(
                    i as int,
                ).map_values(|p: ParameterView| (p.name, p.required)),
            decreases parameters.len() - i,
        {
            let param = &parameters[i];
            let ghost old_ps = ps@;
            ps.push((param.name().clone(), param.required()));
            proof {
                let pv = params_view(parameters@);
                assert(pv.take(i + 1) =~= pv.take(i as int).push(param@));
                assert(ps@ =~= old_ps.push(ps@[i as int]));
                assert(ps@.map_values(|p: (String, bool)| (p.0@, p.1)) =~= old_ps.map_values(
                    |p: (String, bool)| (p.0@, p.1),
                ).push((param@.name, param@.required)));
                assert(pv.take(i + 1).map_values(|p: ParameterView| (p.name, p.required)) =~= pv.take(
                    i as int,
                ).map_values(|p: ParameterView| (p.name, p.required)).push((param@.name, param@.required)));
            }
            i = i + 1;
        }
        assert(params_view(parameters@).take(i as int) =~= params_view(parameters@));
        let summary = match summary {
            Some(s) => Some(s.clone()),
            None => None,
        };
        HelpEntry { command: String::from_str(command_name), parameters: ps, summary }
    }
}

/// What general help shows: the application's name, version and purpose,
/// and the entries of all commands.
pub struct HelpContext {
    app_name: String,
    app_version: String,
    app_purpose: String,
    help_entries: Vec<HelpEntry>,
}

pub struct HelpContextView {
    pub app_name: Seq<char>,
    pub app_version: Seq<char>,
    pub app_purpose: Seq<char>,
    pub entries: Seq<HelpEntryView>,
}

pub open spec fn entries_view(es: Seq<HelpEntry>) -> Seq<HelpEntryView> {
    es.map_values(|e: HelpEntry| e@)
}

impl View for HelpContext {
    type V = HelpContextView;

    closed spec fn view(&self) -> HelpContextView {
        HelpContextView {
            app_name: self.app_name@,
            app_version: self.app_version@,
            app_purpose: self.app_purpose@,
            entries: entries_view(self.help_entries@),
        }
    }
}

impl HelpContext {
    pub fn new(app_name: &str, app_version: &str, app_purpose: &str, help_entries: Vec<HelpEntry>) -> (r:
        HelpContext)
        ensures
            r@ == (HelpContextView {
                app_name: app_name@,
                app_version: app_version@,
                app_purpose: app_purpose@,
                entries: entries_view(help_entries@),
            }),
    {
        HelpContext {
            app_name: String::from_str(app_name),
            app_version: String::from_str(app_version),
            app_purpose: String::from_str(app_purpose),
            help_entries,
        }
    }

    /// The entries, in the order help lists them.
    pub fn entries(&self) -> (r: &Vec<HelpEntry>)
        ensures
            entries_view(r@) == self@.entries,
    {
        &self.help_entries
    }
}

/// A way of presenting help. General help is asked for by `help` alone;
/// help on a command by `help <command>`, where the command is known. Each
/// returns the text to show.
pub trait HelpViewer {
    /// What the viewer may return as general help over the help index `c`.
    spec fn general_ok(&self, c: HelpContextView, r: Result<String>) -> bool;

    /// What the viewer may return as help on the command of entry `e`.
    spec fn command_ok(&self, e: HelpEntryView, r: Result<String>) -> bool;

    fn help_general(&self, context: &HelpContext) -> (r: Result<String>)
        ensures
            self.general_ok(context@, r),
    ;

    fn help_command(&self, entry: &HelpEntry) -> (r: Result<String>)
        ensures
            self.command_ok(entry@, r),
    ;
}

/// The number of bytes that `s` takes in UTF-8.
pub open spec fn utf8_len(s: Seq<char>) -> nat {
    vstd::utf8::encode_utf8(s).len()
}

/// The underline of general help: as many spaces as the header takes bytes,
/// struck through or, with painting off, plain.
pub open spec fn underline_ok(c: HelpContextView, underline: Seq<char>) -> bool {
    underline == spaces(utf8_len(header_line(c))) || underline == crate::paint::strike_code()
        + spaces(utf8_len(header_line(c))) + crate::paint::reset_code()
}

/// General help as the default viewer gives it.
pub open spec fn default_general_ok(c: HelpContextView, t: Seq<char>) -> bool {
    exists|u: Seq<char>| underline_ok(c, u) && t == #[trigger] general_help(c, u)
}

/// The first line of general help: name, version and purpose.
pub open spec fn header_line(c: HelpContextView) -> Seq<char> {
    c.app_name + " "@ + c.app_version + ": "@ + c.app_purpose
}

/// One line of general help: the command's name and its summary, if any.
pub open spec fn entry_line(e: HelpEntryView) -> Seq<char> {
    match e.summary {
        Some(s) => e.command + " - "@ + s,
        None => e.command,
    }
}

/// The lines of the entries, each after a line feed.
pub open spec fn entry_lines(es: Seq<HelpEntryView>) -> Seq<char>
    decreases es.len(),
{
    if es.len() == 0 {
        Seq::empty()
    } else {
        entry_lines(es.drop_last()) + "\n"@ + entry_line(es.last())
    }
}

/// General help, with `underline` as the line under the header.
pub open spec fn general_help(c: HelpContextView, underline: Seq<char>) -> Seq<char> {
    header_line(c) + "\n"@ + underline + entry_lines(c.entries)
}

/// The parameters in a usage line: ` name` if required, ` [name]` if not.
pub open spec fn usage_params(ps: Seq<(Seq<char>, bool)>) -> Seq<char>
    decreases ps.len(),
{
    if ps.len() == 0 {
        Seq::empty()
    } else if ps.last().1 {
        usage_params(ps.drop_last()) + " "@ + ps.last().0
    } else {
        usage_params(ps.drop_last()) + " ["@ + ps.last().0 + "]"@
    }
}

/// Help on one command: its name and summary, then its usage line.
pub open spec fn command_help(e: HelpEntryView) -> Seq<char> {
    let title = match e.summary {
        Some(s) => e.command + ": "@ + s,
        None => e.command + ":"@,
    };
    title + "\nUsage:\n\t"@ + e.command + usage_params(e.parameters)
}

pub open spec fn spaces(n: nat) -> Seq<char> {
    Seq::new(n, |i: int| ' ')
}

/// The header line of general help.
pub fn render_header(context: &HelpContext) -> (r: String)
    ensures
        r@ == header_line(context@),
{
    let mut s = context.app_name.clone();
    s.append(" ");
    s.append(context.app_version.as_str());
    s.append(": ");
    s.append(context.app_purpose.as_str());
    s
}

/// The line of one entry in general help.
pub fn render_entry_line(entry: &HelpEntry) -> (r: String)
    ensures
        r@ == entry_line(entry@),
{
    let mut s = entry.command.clone();
    match &entry.summary {
        Some(summary) => {
            s.append(" - ");
            s.append(summary.as_str());
        },
        None => {},
    }
    s
}

/// General help, with `underline` under the header line.
pub fn render_general(context: &HelpContext, underline: &str) -> (r: String)
    ensures
        r@ == general_help(context@, underline@),
{
    let mut s = render_header(context);
    s.append("\n");
    s.append(underline);
    let mut i: usize = 0;
    while i < context.help_entries.len()
        invariant
            i <= context.help_entries.len(),
            s@ == header_line(context@) + "\n"@ + underline@ + entry_lines(
                context@.entries.take(i as int),
            ),
        decreases context.help_entries.len() - i,
    {
        let line = render_entry_line(&context.help_entries[i]);
        s.append("\n");
        s.append(line.as_str());
        assert(context@.entries.take(i + 1).drop_last() =~= context@.entries.take(i as int));
        i = i + 1;
    }
    assert(context@.entries.take(i as int) =~= context@.entries);
    s
}

/// Help on one command.
pub fn render_command(entry: &HelpEntry) -> (r: String)
    ensures
        r@ == command_help(entry@),
{
    let mut s = entry.command.clone();
    match &entry.summary {
        Some(summary) => {
            s.append(": ");
            s.append(summary.as_str());
        },
        None => {
            s.append(":");
        },
    }
    s.append("\nUsage:\n\t");
    s.append(entry.command.as_str());
    let ghost pre = s@;
    let mut i: usize = 0;
    while i < entry.parameters.len()
        invariant
            i <= entry.parameters.len(),
            s@ == pre + usage_params(entry@.parameters.take(i as int)),
        decreases entry.parameters.len() - i,
    {
        let p = &entry.parameters[i];
        if p.1 {
            s.append(" ");
            s.append(p.0.as_str());
        } else {
            s.append(" [");
            s.append(p.0.as_str());
            s.append("]");
        }
        assert(entry@.parameters.take(i + 1).drop_last() =~= entry@.parameters.take(i as int));
        i = i + 1;
    }
    assert(entry@.parameters.take(i as int) =~= entry@.parameters);
    s
}

/// A run of `n` spaces.
pub fn spaces_of(n: usize) -> (r: String)
    ensures
        r@ == spaces(n as nat),
{
    let mut s = String::new();
    let mut i: usize = 0;
    while i < n
        invariant
            i <= n,
            s@ == spaces(i as nat),
        decreases n - i,
    {
        proof {
            reveal_strlit(" ");
        }
        s.append(" ");
        assert(s@ =~= spaces((i + 1) as nat));
        i = i + 1;
    }
    s
}

/// The help that the shell shows unless given another viewer.
pub struct DefaultHelpViewer;

impl DefaultHelpViewer {
    pub fn new() -> (r: DefaultHelpViewer) {
        DefaultHelpViewer
    }

    /// General help, the header underlined by a struck-through run of spaces
    /// as long as the header is in bytes.
    pub fn general_text(&self, context: &HelpContext) -> (r: String)
        ensures
            r@ == general_help(context@, spaces(utf8_len(header_line(context@))))
                || r@ == general_help(
                context@,
                crate::paint::strike_code() + spaces(utf8_len(header_line(context@)))
                    + crate::paint::reset_code(),
            ),
    {
        let header = render_header(context);
        let bytes = header.as_str().as_bytes();
        let blank = spaces_of(bytes.len());
        let underline = strikethrough(blank.as_str());
        render_general(context, underline.as_str())
    }
}

impl HelpViewer for DefaultHelpViewer {
    open spec fn general_ok(&self, c: HelpContextView, r: Result<String>) -> bool {
        r matches Ok(t) && default_general_ok(c, t@)
    }

    open spec fn command_ok(&self, e: HelpEntryView, r: Result<String>) -> bool {
        r matches Ok(t) && t@ == command_help(e)
    }

    fn help_general(&self, context: &HelpContext) -> (r: Result<String>)
        ensures
            r matches Ok(s) && (s@ == general_help(context@, spaces(utf8_len(header_line(context@))))
                || s@ == general_help(
                context@,
                crate::paint::strike_code() + spaces(utf8_len(header_line(context@)))
                    + crate::paint::reset_code(),
            )),
    {
        let t = self.general_text(context);
        proof {
            if t@ == general_help(context@, spaces(utf8_len(header_line(context@)))) {
                assert(underline_ok(context@, spaces(utf8_len(header_line(context@)))));
            } else {
                let u = crate::paint::strike_code() + spaces(utf8_len(header_line(context@)))
                    + crate::paint::reset_code();
                assert(underline_ok(context@, u));
            }
        }
        Ok(t)
    }

    fn help_command(&self, entry: &HelpEntry) -> (r: Result<String>)
        ensures
            r matches Ok(s) && s@ == command_help(entry@),
    {
        Ok(render_command(entry))
    }
}

} // verus!
