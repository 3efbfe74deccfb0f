//! The shell: its configuration, its command table, and the decision taken
//! for each input line.
use vstd::prelude::*;
use crate::binder::{bind, strings_view, validate_arguments};
use crate::command::{params_valid, Command, CommandView};
use crate::error::{Error, ErrorView};
use crate::help::{entry_of, DefaultHelpViewer, HelpContext, HelpContextView, HelpEntry, HelpViewer};
use crate::paint::{bold_green, bold_green_code, reset_code};
use crate::text::{
    contains_str, has_substring, lemma_seq_lt_total, lemma_seq_lt_transitive, seq_lt, str_eq, str_lt,
};
use crate::tokenizer::{tokenize, tokens};
use crate::value::Arguments;

verus! {

/// What the embedding program is to do with a line.
#[derive(Debug)]
pub enum Action {
    /// Nothing: the line held no token.
    Nothing,
    /// Show general help on the output sink.
    GeneralHelp,
    /// Show help on the command at this index of the table on the output sink.
    CommandHelp(usize),
    /// Tell on the error sink that no help exists for this command name.
    HelpNotFound(String),
    /// Call the callback of the command at this index of the table with
    /// these arguments and the context.
    Invoke(usize, Arguments),
}

/// The decision for a line, over the command table.
pub enum Decision {
    Nothing,
    GeneralHelp,
    CommandHelp(int),
    HelpNotFound(Seq<char>),
    Fail(ErrorView),
    Invoke(int, Seq<(Seq<char>, Seq<char>)>),
}

/// The content of a [`Repl`], without its context and help viewer.
pub struct ReplView {
    pub name: Seq<char>,
    pub version: Seq<char>,
    pub description: Seq<char>,
    pub prompt: Seq<char>,
    pub styled_prompt: Seq<char>,
    pub custom_prompt: bool,
    pub commands: Seq<CommandView>,
    pub use_completion: bool,
    pub help: Option<HelpContextView>,
}

/// Command names strictly increase along the table; so no name is there twice.
pub open spec fn names_sorted(cmds: Seq<CommandView>) -> bool {
    forall|i: int, j: int| 0 <= i < j < cmds.len() ==> seq_lt(#[trigger] cmds[i].name, #[trigger] cmds[j].name)
}

/// The first index from `j` on whose command name is not below `name`, or
/// the length of the table.
pub open spec fn first_not_below(cmds: Seq<CommandView>, name: Seq<char>, j: int) -> int
    decreases cmds.len() - j,
{
    if j < 0 || j >= cmds.len() {
        cmds.len() as int
    } else if !seq_lt(cmds[j].name, name) {
        j
    } else {
        first_not_below(cmds, name, j + 1)
    }
}

/// The table after registering `c`: it replaces the command of the same
/// name, or goes where its name keeps the table sorted.
pub open spec fn insert_command(cmds: Seq<CommandView>, c: CommandView) -> Seq<CommandView> {
    let k = first_not_below(cmds, c.name, 0);
    if k < cmds.len() && cmds[k].name == c.name {
        cmds.update(k, c)
    } else {
        cmds.insert(k, c)
    }
}

/// The command of the table named `name`, if any.
pub open spec fn command_named(cmds: Seq<CommandView>, name: Seq<char>) -> Option<CommandView> {
    if find_name(cmds, name, 0) < cmds.len() {
        Some(cmds[find_name(cmds, name, 0)])
    } else {
        None
    }
}

/// The first index from `j` on of a command named `name`, or the length.
pub open spec fn find_name(cmds: Seq<CommandView>, name: Seq<char>, j: int) -> int
    decreases cmds.len() - j,
{
    if j < 0 || j >= cmds.len() {
        cmds.len() as int
    } else if cmds[j].name == name {
        j
    } else {
        find_name(cmds, name, j + 1)
    }
}

/// The help index of a shell: its name, version and description, and one
/// entry per command, in the order of the table.
pub open spec fn help_snapshot(r: ReplView) -> HelpContextView {
    HelpContextView {
        app_name: r.name,
        app_version: r.version,
        app_purpose: r.description,
        entries: r.commands.map_values(|c: CommandView| entry_of(c.name, c.parameters, c.help_summary)),
    }
}

pub open spec fn repl_wf(r: ReplView) -> bool {
    &&& names_sorted(r.commands)
    &&& forall|i: int| 0 <= i < r.commands.len() ==> params_valid(#[trigger] r.commands[i].parameters)
    &&& (r.help matches Some(h) ==> h == help_snapshot(r))
}

/// What is to be done with a line of these tokens. The word `help` is always
/// the help command, whatever the table holds.
pub open spec fn decide(cmds: Seq<CommandView>, toks: Seq<Seq<char>>) -> Decision {
    if toks.len() == 0 {
        Decision::Nothing
    } else if toks[0] == "help"@ {
        if toks.len() == 1 {
            Decision::GeneralHelp
        } else if find_name(cmds, toks[1], 0) < cmds.len() {
            Decision::CommandHelp(find_name(cmds, toks[1], 0))
        } else {
            Decision::HelpNotFound(toks[1])
        }
    } else if find_name(cmds, toks[0], 0) >= cmds.len() {
        Decision::Fail(ErrorView::UnknownCommand(toks[0]))
    } else {
        let k = find_name(cmds, toks[0], 0);
        match bind(toks[0], cmds[k].parameters, toks.drop_first()) {
            Err(e) => Decision::Fail(e),
            Ok(b) => Decision::Invoke(k, b),
        }
    }
}

/// The names among `names` that hold `partial`, in their order.
pub open spec fn matching_names(names: Seq<Seq<char>>, partial: Seq<char>) -> Seq<Seq<char>>
    decreases names.len(),
{
    if names.len() == 0 {
        Seq::empty()
    } else if has_substring(names.last(), partial) {
        matching_names(names.drop_last(), partial).push(names.last())
    } else {
        matching_names(names.drop_last(), partial)
    }
}

/// The names offered to complete `partial`: those that hold it anywhere.
pub fn completion_candidates(names: &Vec<String>, partial: &str) -> (r: Vec<String>)
    ensures
        strings_view(r@) == matching_names(strings_view(names@), partial@),
{
    let mut out: Vec<String> = Vec::new();
    let mut i: usize = 0;
    while i < names.len()
        invariant
            i <= names.len(),
            strings_view(out@) == matching_names(strings_view(names@).take(i as int), partial@),
        decreases names.len() - i,
    {
        let ghost pre = out@;
        assert(strings_view(names@).take(i + 1).drop_last() =~= strings_view(names@).take(i as int));
        if contains_str(names[i].as_str(), partial) {
            out.push(names[i].clone());
            assert(strings_view(out@) =~= strings_view(pre).push(names@[i as int]@));
        }
        i = i + 1;
    }
    assert(strings_view(names@).take(i as int) =~= strings_view(names@));
    out
}

/// An interactive shell around a context of type `Context`, with commands
/// whose callbacks have type `F`, and help shown by a viewer of type `V`.
pub struct Repl<Context, F, V> {
    name: String,
    version: String,
    description: String,
    prompt: String,
    styled_prompt: String,
    custom_prompt: bool,
    commands: Vec<Command<F>>,
    context: Context,
    help_context: Option<HelpContext>,
    help_viewer: V,
    use_completion: bool,
}

pub open spec fn commands_view<F>(cs: Seq<Command<F>>) -> Seq<CommandView> {
    cs.map_values(|c: Command<F>| c@)
}

impl<Context, F, V> View for Repl<Context, F, V> {
    type V = ReplView;

    closed spec fn view(&self) -> ReplView {
        ReplView {
            name: self.name@,
            version: self.version@,
            description: self.description@,
            prompt: self.prompt@,
            styled_prompt: self.styled_prompt@,
            custom_prompt: self.custom_prompt,
            commands: commands_view(self.commands@),
            use_completion: self.use_completion,
            help: match self.help_context {
                Some(h) => Some(h@),
                None => None,
            },
        }
    }
}

/// The prompt shown before a line: the shell's name and `> `.
pub open spec fn default_prompt(name: Seq<char>) -> Seq<char> {
    name + "> "@
}

fn prompt_for(name: &str) -> (r: String)
    ensures
        r@ == default_prompt(name@),
{
    let mut p = String::from_str(name);
    p.append("> ");
    p
}

impl<Context, F> Repl<Context, F, DefaultHelpViewer> {
    /// A shell with the given context, no name, no commands, the default
    /// prompt and help viewer, and completion off.
    pub fn new(context: Context) -> (r: Self)
        ensures
            r.wf(),
            r@.name == Seq::<char>::empty(),
            r@.version == Seq::<char>::empty(),
            r@.description == Seq::<char>::empty(),
            r@.prompt == default_prompt(Seq::empty()),
            r@.styled_prompt == default_prompt(Seq::empty()) || r@.styled_prompt == bold_green_code()
                + default_prompt(Seq::empty()) + reset_code(),
            !r@.custom_prompt,
            r@.commands == Seq::<CommandView>::empty(),
            !r@.use_completion,
            r@.help is None,
            r.context() == context,
    {
        let name = String::new();
        let prompt = prompt_for(name.as_str());
        let styled_prompt = bold_green(prompt.as_str());
        let r = Repl {
            name,
            version: String::new(),
            description: String::new(),
            prompt,
            styled_prompt,
            custom_prompt: false,
            commands: Vec::new(),
            context,
            help_context: None,
            help_viewer: DefaultHelpViewer::new(),
            use_completion: false,
        };
        assert(r@.commands =~= Seq::<CommandView>::empty());
        r
    }
}

impl<Context, F, V> Repl<Context, F, V> {
    pub open spec fn wf(&self) -> bool {
        repl_wf(self@)
    }

    pub closed spec fn context(&self) -> Context {
        self.context
    }

    pub closed spec fn viewer(&self) -> V {
        self.help_viewer
    }

    /// Gives the shell a name, used in help and, unless a prompt was set, in
    /// the prompt.
    pub fn with_name(self, name: &str) -> (r: Self)
        requires
            self.wf(),
        ensures
            r.wf(),
            r@.name == name@,
            self@.custom_prompt ==> r@.prompt == self@.prompt && r@.styled_prompt == self@.styled_prompt,
            !self@.custom_prompt ==> r@.prompt == default_prompt(name@) && (r@.styled_prompt
                == default_prompt(name@) || r@.styled_prompt == bold_green_code() + default_prompt(
                name@,
            ) + reset_code()),
            r@.version == self@.version,
            r@.description == self@.description,
            r@.custom_prompt == self@.custom_prompt,
            r@.commands == self@.commands,
            r@.use_completion == self@.use_completion,
            r@.help is None,
            r.context() == self.context(),
            r.viewer() == self.viewer(),
    {
        if self.custom_prompt {
            Repl { name: String::from_str(name), help_context: None, ..self }
        } else {
            let prompt = prompt_for(name);
            let styled_prompt = bold_green(prompt.as_str());
            Repl { name: String::from_str(name), prompt, styled_prompt, help_context: None, ..self }
        }
    }

    /// Gives the shell a version, shown in help.
    pub fn with_version(self, version: &str) -> (r: Self)
        requires
            self.wf(),
        ensures
            r.wf(),
            r@ == (ReplView { version: version@, help: None, ..self@ }),
            r.context() == self.context(),
            r.viewer() == self.viewer(),
    {
        Repl { version: String::from_str(version), help_context: None, ..self }
    }

    /// Gives the shell a description, shown in help.
    pub fn with_description(self, description: &str) -> (r: Self)
        requires
            self.wf(),
        ensures
            r.wf(),
            r@ == (ReplView { description: description@, help: None, ..self@ }),
            r.context() == self.context(),
            r.viewer() == self.viewer(),
    {
        Repl { description: String::from_str(description), help_context: None, ..self }
    }

    /// Sets the prompt, plain and styled alike; a later name leaves it be.
    pub fn with_prompt(self, prompt: &str) -> (r: Self)
        requires
            self.wf(),
        ensures
            r.wf(),
            r@ == (ReplView { prompt: prompt@, styled_prompt: prompt@, custom_prompt: true, ..self@ }),
            r.context() == self.context(),
            r.viewer() == self.viewer(),
    {
        Repl {
            prompt: String::from_str(prompt),
            styled_prompt: String::from_str(prompt),
            custom_prompt: true,
            ..self
        }
    }

    /// Sets the prompt shown where styling is possible.
    pub fn with_styled_prompt(self, prompt: &str) -> (r: Self)
        requires
            self.wf(),
        ensures
            r.wf(),
            r@ == (ReplView { styled_prompt: prompt@, ..self@ }),
            r.context() == self.context(),
            r.viewer() == self.viewer(),
    {
        Repl { styled_prompt: String::from_str(prompt), ..self }
    }

    /// Replaces the help viewer.
    pub fn with_help_viewer<W>(self, help_viewer: W) -> (r: Repl<Context, F, W>)
        requires
            self.wf(),
        ensures
            r.wf(),
            r@ == self@,
            r.context() == self.context(),
            r.viewer() == help_viewer,
    {
        Repl {
            name: self.name,
            version: self.version,
            description: self.description,
            prompt: self.prompt,
            styled_prompt: self.styled_prompt,
            custom_prompt: self.custom_prompt,
            commands: self.commands,
            context: self.context,
            help_context: self.help_context,
            help_viewer,
            use_completion: self.use_completion,
        }
    }

    /// Turns completion of command names on or off.
    pub fn use_completion(self, value: bool) -> (r: Self)
        requires
            self.wf(),
        ensures
            r.wf(),
            r@ == (ReplView { use_completion: value, ..self@ }),
            r.context() == self.context(),
            r.viewer() == self.viewer(),
    {
        Repl { use_completion: value, ..self }
    }

    /// Registers a command. One of the same name is replaced; the table
    /// stays sorted by name.
    pub fn add_command(self, command: Command<F>) -> (r: Self)
        requires
            self.wf(),
            command.wf(),
        ensures
            r.wf(),
            r@ == (ReplView { commands: insert_command(self@.commands, command@), help: None, ..self@ }),
            r.context() == self.context(),
            r.viewer() == self.viewer(),
    {
        let ghost cv = self@.commands;
        let ghost name = command@.name;
        let mut commands = self.commands;
        let mut k: usize = 0;
        while k < commands.len() && str_lt(commands[k].name().as_str(), command.name().as_str())
            invariant
                k <= commands.len(),
                cv == commands_view(commands@),
                name == command@.name,
                first_not_below(cv, name, 0) == first_not_below(cv, name, k as int),
                forall|j: int| 0 <= j < k ==> seq_lt(#[trigger] cv[j].name, name),
            decreases commands.len() - k,
        {
            k = k + 1;
        }
        assert(first_not_below(cv, name, k as int) == k);
        if k < commands.len() && str_eq(commands[k].name().as_str(), command.name().as_str()) {
            commands.remove(k);
            commands.insert(k, command);
            assert(commands_view(commands@) =~= cv.update(k as int, command@));
        } else {
            commands.insert(k, command);
            assert(commands_view(commands@) =~= cv.insert(k as int, command@));
        }
        proof {
            lemma_insert_command_sorted(cv, command@);
            let nv = insert_command(cv, command@);
            assert forall|i: int| 0 <= i < nv.len() implies params_valid(#[trigger] nv[i].parameters) by {
                if k < cv.len() && cv[k as int].name == name {
                    if i != k {
                        assert(nv[i] == cv[i]);
                    }
                } else if i < k {
                    assert(nv[i] == cv[i]);
                } else if i > k {
                    assert(nv[i] == cv[i - 1]);
                }
            }
        }
        Repl { commands, help_context: None, ..self }
    }

    /// Builds the help index from the current table: name, version,
    /// description and one entry per command, in name order.
    pub fn construct_help_context(&mut self)
        requires
            old(self).wf(),
        ensures
            final(self).wf(),
            final(self)@ == (ReplView { help: Some(help_snapshot(old(self)@)), ..old(self)@ }),
            final(self).context() == old(self).context(),
            final(self).viewer() == old(self).viewer(),
    {
        let ghost snapshot = help_snapshot(self@);
        let mut entries: Vec<HelpEntry> = Vec::new();
        let mut i: usize = 0;
        while i < self.commands.len()
            invariant
                i <= self.commands.len(),
                *self == *old(self),
                snapshot == help_snapshot(self@),
                entries.len() == i,
                crate::help::entries_view(entries@) == snapshot.entries.take(i as int),
            decreases self.commands.len() - i,
        {
            let c = &self.commands[i];
            let entry = HelpEntry::new(c.name().as_str(), c.parameters().as_slice(), c.help_summary());
            let ghost pre = entries@;
            entries.push(entry);
            proof {
                assert(self@.commands[i as int] == c@);
                assert(snapshot.entries[i as int] == entry_of(c@.name, c@.parameters, c@.help_summary));
                assert(snapshot.entries.take(i + 1) =~= snapshot.entries.take(i as int).push(snapshot.entries[i as int]));
                assert(crate::help::entries_view(entries@) =~= crate::help::entries_view(pre).push(entry@));
            }
            i = i + 1;
        }
        assert(snapshot.entries.take(i as int) =~= snapshot.entries);
        let context = HelpContext::new(self.name.as_str(), self.version.as_str(), self.description.as_str(), entries);
        self.help_context = Some(context);
    }

    /// Builds the help index unless it is built already.
    pub fn ensure_help_context(&mut self)
        requires
            old(self).wf(),
        ensures
            final(self).wf(),
            final(self)@ == (ReplView { help: Some(help_snapshot(old(self)@)), ..old(self)@ }),
            final(self).context() == old(self).context(),
            final(self).viewer() == old(self).viewer(),
    {
        if self.help_context.is_none() {
            self.construct_help_context();
        } else {
            assert(self@ == (ReplView { help: Some(help_snapshot(old(self)@)), ..old(self)@ }));
        }
    }

    /// The index of the command named `name`, or the number of commands.
    pub fn find_command(&self, name: &str) -> (r: usize)
        ensures
            r == find_name(self@.commands, name@, 0),
    {
        let mut k: usize = 0;
        while k < self.commands.len() && !str_eq(self.commands[k].name().as_str(), name)
            invariant
                k <= self.commands.len(),
                find_name(self@.commands, name@, 0) == find_name(self@.commands, name@, k as int),
            decreases self.commands.len() - k,
        {
            k = k + 1;
        }
        k
    }

    pub fn name(&self) -> (r: &String)
        ensures
            r@ == self@.name,
    {
        &self.name
    }

    pub fn version(&self) -> (r: &String)
        ensures
            r@ == self@.version,
    {
        &self.version
    }

    pub fn description(&self) -> (r: &String)
        ensures
            r@ == self@.description,
    {
        &self.description
    }

    pub fn prompt(&self) -> (r: &String)
        ensures
            r@ == self@.prompt,
    {
        &self.prompt
    }

    pub fn styled_prompt(&self) -> (r: &String)
        ensures
            r@ == self@.styled_prompt,
    {
        &self.styled_prompt
    }

    pub fn completion_enabled(&self) -> (r: bool)
        ensures
            r == self@.use_completion,
    {
        self.use_completion
    }

    pub fn command_count(&self) -> (r: usize)
        ensures
            r == self@.commands.len(),
    {
        self.commands.len()
    }

    pub fn command_at(&self, index: usize) -> (r: &Command<F>)
        requires
            index < self@.commands.len(),
        ensures
            r@ == self@.commands[index as int],
    {
        &self.commands[index]
    }

    /// The names of the commands, in table order.
    pub fn command_names(&self) -> (r: Vec<String>)
        ensures
            strings_view(r@) == self@.commands.map_values(|c: CommandView| c.name),
    {
        let mut out: Vec<String> = Vec::new();
        let mut i: usize = 0;
        while i < self.commands.len()
            invariant
                i <= self.commands.len(),
                out.len() == i,
                strings_view(out@) == self@.commands.take(i as int).map_values(|c: CommandView| c.name),
            decreases self.commands.len() - i,
        {
            let ghost pre = out@;
            let name = self.commands[i].name().clone();
            out.push(name);
            proof {
                let cv = self@.commands;
                assert(cv[i as int] == self.commands@[i as int]@);
                assert(cv.take(i + 1) =~= cv.take(i as int).push(cv[i as int]));
                assert(strings_view(out@) =~= strings_view(pre).push(name@));
                assert(cv.take(i + 1).map_values(|c: CommandView| c.name) =~= cv.take(i as int).map_values(
                    |c: CommandView| c.name,
                ).push(cv[i as int].name));
            }
            i = i + 1;
        }
        assert(self@.commands.take(i as int) =~= self@.commands);
        out
    }

    pub fn context_ref(&self) -> (r: &Context)
        ensures
            *r == self.context(),
    {
        &self.context
    }

    pub fn context_mut(&mut self) -> (r: &mut Context)
        ensures
            *r == old(self).context(),
            final(self)@ == old(self)@,
            final(self).context() == *final(r),
            final(self).viewer() == old(self).viewer(),
    {
        &mut self.context
    }

    pub fn help_viewer(&self) -> (r: &V)
        ensures
            *r == self.viewer(),
    {
        &self.help_viewer
    }
}

impl<Context, F, V: HelpViewer> Repl<Context, F, V> {
    /// General help, as the help viewer presents the help index.
    pub fn general_help(&mut self) -> (r: Result<String, Error>)
        requires
            old(self).wf(),
        ensures
            old(self).viewer().general_ok(help_snapshot(old(self)@), r),
            final(self).wf(),
            final(self)@ == (ReplView { help: Some(help_snapshot(old(self)@)), ..old(self)@ }),
            final(self).context() == old(self).context(),
            final(self).viewer() == old(self).viewer(),
    {
        self.ensure_help_context();
        let h = self.help_context.as_ref().unwrap();
        self.help_viewer.help_general(h)
    }

    /// Help on the command at `index` of the table, as the help viewer
    /// presents its entry of the help index.
    pub fn command_help(&mut self, index: usize) -> (r: Result<String, Error>)
        requires
            old(self).wf(),
            index < old(self)@.commands.len(),
        ensures
            old(self).viewer().command_ok(help_snapshot(old(self)@).entries[index as int], r),
            final(self).wf(),
            final(self)@ == (ReplView { help: Some(help_snapshot(old(self)@)), ..old(self)@ }),
            final(self).context() == old(self).context(),
            final(self).viewer() == old(self).viewer(),
    {
        self.ensure_help_context();
        let h = self.help_context.as_ref().unwrap();
        let es = h.entries();
        assert(crate::help::entries_view(es@).len() == es@.len());
        self.help_viewer.help_command(&es[index])
    }

    /// Decides what to do with one input line. An empty line asks for
    /// nothing. `help` alone asks for general help, and `help` with a command
    /// name for help on that command, or for telling that none exists.
    /// Otherwise the first token names a command, whose arguments are then
    /// bound. The help index is built first if it is not yet.
    pub fn process_line(&mut self, line: &str) -> (r: Result<Action, Error>)
        requires
            old(self).wf(),
        ensures
            final(self).wf(),
            final(self)@ == (ReplView { help: Some(help_snapshot(old(self)@)), ..old(self)@ }),
            final(self).context() == old(self).context(),
            final(self).viewer() == old(self).viewer(),
            match decide(old(self)@.commands, tokens(line@)) {
                Decision::Nothing => r matches Ok(Action::Nothing),
                Decision::GeneralHelp => r matches Ok(Action::GeneralHelp),
                Decision::CommandHelp(k) => r matches Ok(Action::CommandHelp(i)) && i == k,
                Decision::HelpNotFound(n) => r matches Ok(Action::HelpNotFound(m)) && m@ == n,
                Decision::Fail(e) => r matches Err(x) && x@ == e,
                Decision::Invoke(k, b) => r matches Ok(Action::Invoke(i, a)) && i == k && a@ == b,
            },
    {
        self.ensure_help_context();
        let ghost cmds = self@.commands;
        let toks = tokenize(line);
        let ghost tv = tokens(line@);
        assert(strings_view(toks@) == tv);
        if toks.len() == 0 {
            return Ok(Action::Nothing);
        }
        assert(toks@[0]@ == tv[0]);
        if str_eq(toks[0].as_str(), "help") {
            if toks.len() == 1 {
                return Ok(Action::GeneralHelp);
            }
            assert(toks@[1]@ == tv[1]);
            let k = self.find_command(toks[1].as_str());
            if k < self.commands.len() {
                return Ok(Action::CommandHelp(k));
            }
            return Ok(Action::HelpNotFound(toks[1].clone()));
        }
        let k = self.find_command(toks[0].as_str());
        if k >= self.commands.len() {
            return Err(Error::UnknownCommand(toks[0].clone()));
        }
        let mut args = toks;
        let command = args.remove(0);
        assert(strings_view(args@) =~= tv.drop_first());
        match validate_arguments(command.as_str(), self.commands[k].parameters().as_slice(), args.as_slice()) {
            Ok(a) => Ok(Action::Invoke(k, a)),
            Err(e) => Err(e),
        }
    }
}

proof fn lemma_find_name_from(cmds: Seq<CommandView>, name: Seq<char>, j: int)
    requires
        0 <= j <= cmds.len(),
    ensures
        j <= find_name(cmds, name, j) <= cmds.len(),
        find_name(cmds, name, j) < cmds.len() ==> cmds[find_name(cmds, name, j)].name == name,
        forall|k: int| j <= k < find_name(cmds, name, j) ==> #[trigger] cmds[k].name != name,
    decreases cmds.len() - j,
{
    if j < cmds.len() && cmds[j].name != name {
        lemma_find_name_from(cmds, name, j + 1);
    }
}

/// In a sorted table, the command named `name` is the one at the index that
/// holds that name, and there is none if no index does.
proof fn lemma_command_named(cmds: Seq<CommandView>, name: Seq<char>)
    requires
        names_sorted(cmds),
    ensures
        forall|i: int| 0 <= i < cmds.len() && #[trigger] cmds[i].name == name ==> command_named(cmds, name)
            == Some(cmds[i]),
        (forall|i: int| 0 <= i < cmds.len() ==> #[trigger] cmds[i].name != name) ==> command_named(
            cmds,
            name,
        ) is None,
{
    lemma_find_name_from(cmds, name, 0);
    let f = find_name(cmds, name, 0);
    assert forall|i: int| 0 <= i < cmds.len() && #[trigger] cmds[i].name == name implies f == i by {
        if f < i {
            assert(seq_lt(cmds[f].name, cmds[i].name));
            lemma_seq_lt_irreflexive(name);
        }
    }
}

proof fn lemma_seq_lt_irreflexive(a: Seq<char>)
    ensures
        !seq_lt(a, a),
    decreases a.len(),
{
    if a.len() > 0 {
        lemma_seq_lt_irreflexive(a.drop_first());
    }
}

/// A later registration overwrites an earlier one: after registering `c`,
/// the command named as `c` is `c`, and every other name names what it did.
pub proof fn lemma_registration_overwrites(cmds: Seq<CommandView>, c: CommandView, name: Seq<char>)
    requires
        names_sorted(cmds),
    ensures
        command_named(insert_command(cmds, c), c.name) == Some(c),
        name != c.name ==> command_named(insert_command(cmds, c), name) == command_named(cmds, name),
{
    lemma_insert_command_sorted(cmds, c);
    lemma_first_not_below(cmds, c.name, 0);
    let k = first_not_below(cmds, c.name, 0);
    let nv = insert_command(cmds, c);
    lemma_command_named(nv, c.name);
    lemma_command_named(nv, name);
    lemma_command_named(cmds, name);
    let replaced = k < cmds.len() && cmds[k].name == c.name;
    assert(nv[k] == c);
    if name != c.name {
        if exists|i: int| 0 <= i < cmds.len() && #[trigger] cmds[i].name == name {
            let i = choose|i: int| 0 <= i < cmds.len() && #[trigger] cmds[i].name == name;
            if replaced || i < k {
                assert(nv[i] == cmds[i]);
            } else {
                assert(nv[i + 1] == cmds[i]);
            }
        } else {
            assert forall|j: int| 0 <= j < nv.len() implies #[trigger] nv[j].name != name by {
                if j != k {
                    if replaced || j < k {
                        assert(nv[j] == cmds[j]);
                    } else {
                        assert(nv[j] == cmds[j - 1]);
                    }
                }
            }
        }
    }
}

proof fn lemma_first_not_below(cmds: Seq<CommandView>, name: Seq<char>, j: int)
    requires
        0 <= j <= cmds.len(),
    ensures
        j <= first_not_below(cmds, name, j) <= cmds.len(),
        first_not_below(cmds, name, j) < cmds.len() ==> !seq_lt(cmds[first_not_below(cmds, name, j)].name, name),
        forall|i: int| j <= i < first_not_below(cmds, name, j) ==> seq_lt(#[trigger] cmds[i].name, name),
    decreases cmds.len() - j,
{
    if j < cmds.len() && seq_lt(cmds[j].name, name) {
        lemma_first_not_below(cmds, name, j + 1);
    }
}

/// Registering a command keeps the table sorted by name.
pub proof fn lemma_insert_command_sorted(cmds: Seq<CommandView>, c: CommandView)
    requires
        names_sorted(cmds),
    ensures
        names_sorted(insert_command(cmds, c)),
{
    lemma_first_not_below(cmds, c.name, 0);
    let k = first_not_below(cmds, c.name, 0);
    let nv = insert_command(cmds, c);
    if k < cmds.len() && cmds[k].name == c.name {
        assert forall|i: int, j: int| 0 <= i < j < nv.len() implies seq_lt(#[trigger] nv[i].name, #[trigger] nv[j].name) by {
            assert(seq_lt(cmds[i].name, cmds[j].name));
        }
    } else {
        if k < cmds.len() {
            lemma_seq_lt_total(cmds[k].name, c.name);
        }
        assert forall|i: int, j: int| 0 <= i < j < nv.len() implies seq_lt(#[trigger] nv[i].name, #[trigger] nv[j].name) by {
            if j < k {
                assert(seq_lt(cmds[i].name, cmds[j].name));
            } else if j == k {
                assert(seq_lt(cmds[i].name, c.name));
            } else if i == k {
                if j - 1 > k {
                    assert(seq_lt(cmds[k].name, cmds[j - 1].name));
                    lemma_seq_lt_transitive(c.name, cmds[k].name, cmds[j - 1].name);
                }
            } else if i < k {
                assert(seq_lt(cmds[i].name, cmds[j - 1].name));
            } else {
                assert(seq_lt(cmds[i - 1].name, cmds[j - 1].name));
            }
        }
    }
}

} // verus!
