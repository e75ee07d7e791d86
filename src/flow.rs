//! The SIP-flow log: its settings, the file actions that enabling,
//! disabling and moving it call for, and the text of one entry.
use vstd::prelude::*;
use crate::text::{chars_of, push_str, string_of};

verus! {

/// The SIP-flow log settings shown to the user.
#[derive(Debug, Clone, PartialEq, Eq)]
pub struct SipFlowConfig {
    pub enabled: bool,
    pub log_dir: String,
}

/// `base` with a path component `name` appended, as `PathBuf::push` does
/// for a relative name: no separator after an empty base or one already
/// ending in `/`.
pub open spec fn path_join(base: Seq<char>, name: Seq<char>) -> Seq<char> {
    if base.len() == 0 {
        name
    } else if base.last() == '/' {
        base + name
    } else {
        base + seq!['/'] + name
    }
}

pub fn join_path(base: &str, name: &str) -> (r: String)
    ensures
        r@ == path_join(base@, name@),
{
    let mut b = chars_of(base);
    let n = b.len();
    if n > 0 && b[n - 1] != '/' {
        b.push('/');
    }
    push_str(&mut b, name);
    string_of(&b)
}

impl SipFlowConfig {
    /// Logging off, in `softphone` under the home directory, or under the
    /// temporary directory when there is no home.
    pub fn default_in(home: Option<&str>, temp_dir: &str) -> (r: SipFlowConfig)
        ensures
            !r.enabled,
            home matches Some(h) ==> r.log_dir@ == path_join(h@, "softphone"@),
            home is None ==> r.log_dir@ == path_join(temp_dir@, "softphone"@),
    {
        let log_dir = match home {
            Some(h) => join_path(h, "softphone"),
            None => join_path(temp_dir, "softphone"),
        };
        SipFlowConfig { enabled: false, log_dir }
    }
}

/// What the log file needs after a change of settings.
#[derive(Debug, Clone, PartialEq, Eq)]
pub enum FileAction {
    /// Nothing.
    Keep,
    /// Open (creating it if needed) `sip-flow.log` in this directory, in append mode.
    OpenAppend(String),
    /// Close the file.
    Close,
}

/// What a file action does, on the directory's characters.
pub enum FileEffect {
    Keep,
    OpenAppend(Seq<char>),
    Close,
}

pub open spec fn effect_of(a: FileAction) -> FileEffect {
    match a {
        FileAction::Keep => FileEffect::Keep,
        FileAction::OpenAppend(d) => FileEffect::OpenAppend(d@),
        FileAction::Close => FileEffect::Close,
    }
}

/// Enabling from `(enabled, dir)`: the new state and the file effect.
pub open spec fn enable_step(enabled: bool, dir: Seq<char>) -> (bool, Seq<char>, FileEffect) {
    if enabled {
        (true, dir, FileEffect::Keep)
    } else {
        (true, dir, FileEffect::OpenAppend(dir))
    }
}

/// Disabling from `(enabled, dir)`: the new state and the file effect.
pub open spec fn disable_step(enabled: bool, dir: Seq<char>) -> (bool, Seq<char>, FileEffect) {
    if enabled {
        (false, dir, FileEffect::Close)
    } else {
        (false, dir, FileEffect::Keep)
    }
}

/// The live state of the SIP-flow inspector.
pub struct FlowSwitch {
    pub enabled: bool,
    pub log_dir: String,
}

impl FlowSwitch {
    /// The inspector with its settings; an enabled one opens its file.
    pub fn new(log_dir: String, enabled: bool) -> (r: (FlowSwitch, FileAction))
        ensures
            r.0.enabled == enabled,
            r.0.log_dir == log_dir,
            enabled ==> (r.1 matches FileAction::OpenAppend(d) && d@ == log_dir@),
            !enabled ==> r.1 == FileAction::Keep,
    {
        let action = if enabled {
            FileAction::OpenAppend(log_dir.clone())
        } else {
            FileAction::Keep
        };
        (FlowSwitch { enabled, log_dir }, action)
    }

    /// Turn logging on: the file is opened for appending unless it already was.
    pub fn enable(&mut self) -> (r: FileAction)
        ensures
            (final(self).enabled, final(self).log_dir@, effect_of(r)) == enable_step(
                old(self).enabled,
                old(self).log_dir@,
            ),
            final(self).log_dir == old(self).log_dir,
    {
        if self.enabled {
            return FileAction::Keep;
        }
        self.enabled = true;
        FileAction::OpenAppend(self.log_dir.clone())
    }

    /// Turn logging off: the file is closed unless it already was.
    pub fn disable(&mut self) -> (r: FileAction)
        ensures
            (final(self).enabled, final(self).log_dir@, effect_of(r)) == disable_step(
                old(self).enabled,
                old(self).log_dir@,
            ),
            final(self).log_dir == old(self).log_dir,
    {
        if !self.enabled {
            return FileAction::Keep;
        }
        self.enabled = false;
        FileAction::Close
    }

    /// Move the log: while logging, the file is reopened in the new directory.
    pub fn set_log_dir(&mut self, dir: String) -> (r: FileAction)
        ensures
            final(self).enabled == old(self).enabled,
            final(self).log_dir == dir,
            old(self).enabled ==> (r matches FileAction::OpenAppend(d) && d@ == dir@),
            !old(self).enabled ==> r == FileAction::Keep,
    {
        self.log_dir = dir;
        if self.enabled {
            FileAction::OpenAppend(self.log_dir.clone())
        } else {
            FileAction::Keep
        }
    }

    /// The settings as shown to the user.
    pub fn config(&self) -> (r: SipFlowConfig)
        ensures
            r.enabled == self.enabled,
            r.log_dir@ == self.log_dir@,
    {
        SipFlowConfig { enabled: self.enabled, log_dir: self.log_dir.clone() }
    }

    /// The log entry for one message: nothing while logging is off or when
    /// the message has no Call-ID.
    pub fn entry(&self, timestamp: &str, direction: &str, call_id: Option<&str>, message: &str) -> (r: Option<String>)
        ensures
            (!self.enabled || call_id is None) ==> r is None,
            self.enabled && call_id is Some ==> (r matches Some(e) && e@ == flow_entry(
                timestamp@,
                direction@,
                call_id->0@,
                message@,
            )),
    {
        if !self.enabled {
            return None;
        }
        match call_id {
            None => None,
            Some(id) => Some(format_flow_entry(timestamp, direction, id, message)),
        }
    }
}

/// A line of 80 `=`.
pub open spec fn separator() -> Seq<char> {
    Seq::new(80, |i: int| '=')
}

/// One entry of the SIP-flow log: a blank line, a separator, the
/// timestamp, direction and Call-ID, another separator, then the message.
pub open spec fn flow_entry(ts: Seq<char>, dir: Seq<char>, call_id: Seq<char>, msg: Seq<char>) -> Seq<char> {
    seq!['\n'] + separator() + seq!['\n', '['] + ts + "] "@ + dir + " (Call-ID: "@ + call_id + seq![
        ')',
        '\n',
    ] + separator() + seq!['\n'] + msg + seq!['\n']
}

fn push_separator(out: &mut Vec<char>)
    ensures
        final(out)@ == old(out)@ + separator(),
{
    let ghost o = out@;
    let mut i: usize = 0;
    while i < 80
        invariant
            i <= 80,
            out@ == o + Seq::new(i as nat, |j: int| '='),
        decreases 80 - i,
    {
        out.push('=');
        assert(out@ =~= o + Seq::new((i + 1) as nat, |j: int| '='));
        i = i + 1;
    }
}

pub fn format_flow_entry(timestamp: &str, direction: &str, call_id: &str, message: &str) -> (r: String)
    ensures
        r@ == flow_entry(timestamp@, direction@, call_id@, message@),
{
    let mut out: Vec<char> = Vec::new();
    out.push('\n');
    push_separator(&mut out);
    out.push('\n');
    out.push('[');
    push_str(&mut out, timestamp);
    push_str(&mut out, "] ");
    push_str(&mut out, direction);
    push_str(&mut out, " (Call-ID: ");
    push_str(&mut out, call_id);
    out.push(')');
    out.push('\n');
    push_separator(&mut out);
    out.push('\n');
    push_str(&mut out, message);
    out.push('\n');
    let r = string_of(&out);
    assert(r@ =~= flow_entry(timestamp@, direction@, call_id@, message@));
    r
}

/// Enabling, disabling and enabling again, from any state, ends enabled
/// with the file closed in between and reopened for appending in the same
/// directory: the log can always be reopened and is never truncated (no
/// step truncates a file).
pub proof fn lemma_flow_reenable(enabled: bool, dir: Seq<char>)
    ensures
        ({
            let (e1, d1, _) = enable_step(enabled, dir);
            let (e2, d2, a2) = disable_step(e1, d1);
            let (e3, d3, a3) = enable_step(e2, d2);
            &&& a2 == FileEffect::Close
            &&& e3
            &&& d3 == dir
            &&& a3 == FileEffect::OpenAppend(dir)
        }),
{
}

} // verus!
