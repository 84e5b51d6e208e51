//! How messages are laid out where no colour is used.

use vstd::prelude::*;
use vstd::string::*;

verus! {

/// How output is rendered.
#[derive(Clone, Copy, Debug, PartialEq, Eq, Structural)]
pub enum RenderMode {
    /// Colours, emoji and spinners.
    Fancy,
    /// No colour, no emoji, no spinner.
    Plain,
}

#[derive(Clone, Copy, Debug, PartialEq, Eq, Structural)]
pub struct StyleOptions {
    pub mode: RenderMode,
    pub use_color: bool,
    pub quiet: bool,
}

/// The kinds of message.
#[derive(Clone, Copy, Debug, PartialEq, Eq, Structural)]
pub enum MessageKind {
    Success,
    Info,
    Warn,
    Error,
    Debug,
}

/// The options in force where none were set: fancy, coloured, not quiet.
pub open spec fn default_options() -> StyleOptions {
    StyleOptions { mode: RenderMode::Fancy, use_color: true, quiet: false }
}

/// The options in force: those that were set, else the defaults.
pub fn opts(set: Option<StyleOptions>) -> (o: StyleOptions)
    ensures
        o == match set {
            Some(s) => s,
            None => default_options(),
        },
{
    match set {
        Some(s) => s,
        None => StyleOptions { mode: RenderMode::Fancy, use_color: true, quiet: false },
    }
}

/// Sets the options, once: options that were set before stay.
pub fn init(set: Option<StyleOptions>, opts: StyleOptions) -> (o: StyleOptions)
    ensures
        o == match set {
            Some(s) => s,
            None => opts,
        },
{
    match set {
        Some(s) => s,
        None => opts,
    }
}

/// The tag that heads a message of each kind where no colour is used.
pub open spec fn plain_tag(kind: MessageKind) -> Seq<char> {
    match kind {
        MessageKind::Success => "[OK] "@,
        MessageKind::Info => "[INFO] "@,
        MessageKind::Warn => "[WARN] "@,
        MessageKind::Error => "[ERR] "@,
        MessageKind::Debug => "[DEBUG] "@,
    }
}

/// Whether a message of the kind goes to standard error.
pub fn to_stderr(kind: MessageKind) -> (r: bool)
    ensures
        r == (kind == MessageKind::Warn || kind == MessageKind::Error),
{
    match kind {
        MessageKind::Warn => true,
        MessageKind::Error => true,
        _ => false,
    }
}

/// The line for a message without colour, or none in quiet mode.
pub fn plain_line(o: &StyleOptions, kind: MessageKind, msg: &str) -> (r: Option<String>)
    ensures
        r is None <==> o.quiet,
        r matches Some(line) ==> line@ == plain_tag(kind) + msg@,
{
    if o.quiet {
        return None;
    }
    let mut line = match kind {
        MessageKind::Success => "[OK] ".to_string(),
        MessageKind::Info => "[INFO] ".to_string(),
        MessageKind::Warn => "[WARN] ".to_string(),
        MessageKind::Error => "[ERR] ".to_string(),
        MessageKind::Debug => "[DEBUG] ".to_string(),
    };
    line.append(msg);
    Some(line)
}

/// The line for a message that something went well.
pub fn ok(o: &StyleOptions, msg: &str) -> (r: Option<String>)
    ensures
        r is None <==> o.quiet,
        r matches Some(line) ==> line@ == "[OK] "@ + msg@,
{
    plain_line(o, MessageKind::Success, msg)
}

/// The line for a message that something went wrong.
pub fn err(o: &StyleOptions, msg: &str) -> (r: Option<String>)
    ensures
        r is None <==> o.quiet,
        r matches Some(line) ==> line@ == "[ERR] "@ + msg@,
{
    plain_line(o, MessageKind::Error, msg)
}

/// The line for a key and its value.
pub fn kv(o: &StyleOptions, key: &str, value: &str) -> (r: Option<String>)
    ensures
        r is None <==> o.quiet,
        r matches Some(line) ==> line@ == "  "@ + key@ + ": "@ + value@,
{
    if o.quiet {
        return None;
    }
    let mut line = "  ".to_string();
    line.append(key);
    line.append(": ");
    line.append(value);
    Some(line)
}

/// The line for one item of a list.
pub fn bullet(o: &StyleOptions, msg: &str) -> (r: Option<String>)
    ensures
        r is None <==> o.quiet,
        r matches Some(line) ==> line@ == "  * "@ + msg@,
{
    if o.quiet {
        return None;
    }
    let mut line = "  * ".to_string();
    line.append(msg);
    Some(line)
}

/// A run of `n` hyphens.
pub open spec fn hyphens(n: nat) -> Seq<char> {
    Seq::new(n, |i: int| '-')
}

fn hyphen_line(n: usize) -> (s: String)
    ensures
        s@ == hyphens(n as nat),
{
    let mut s = String::new();
    let mut i: usize = 0;
    assert(s@ =~= hyphens(0));
    while i < n
        invariant
            i <= n,
            s@ == hyphens(i as nat),
        decreases n - i,
    {
        s.push('-');
        i += 1;
        assert(s@ =~= hyphens(i as nat));
    }
    s
}

/// The line that divides two parts of the output: 50 hyphens.
pub fn divider(o: &StyleOptions) -> (r: Option<String>)
    ensures
        r is None <==> o.quiet,
        r matches Some(line) ==> line@ == hyphens(50),
{
    if o.quiet {
        return None;
    }
    Some(hyphen_line(50))
}

/// The three lines of a heading: the message in a frame that is four
/// hyphens wider than the message has bytes.
pub fn header(o: &StyleOptions, msg: &str) -> (r: Option<Vec<String>>)
    ensures
        r is None <==> o.quiet || vstd::utf8::encode_utf8(msg@).len() + 4 > usize::MAX,
        r matches Some(lines) ==> {
            let rule = "+"@ + hyphens((vstd::utf8::encode_utf8(msg@).len() + 4) as nat) + "+"@;
            &&& lines@.len() == 3
            &&& lines@[0]@ == rule
            &&& lines@[1]@ == "| "@ + msg@ + " |"@
            &&& lines@[2]@ == rule
        },
{
    if o.quiet {
        return None;
    }
    let n = msg.as_bytes().len();
    if n > usize::MAX - 4 {
        return None;
    }
    let mut rule = "+".to_string();
    rule.append(hyphen_line(n + 4).as_str());
    rule.append("+");
    let mut middle = "| ".to_string();
    middle.append(msg);
    middle.append(" |");
    let mut lines: Vec<String> = Vec::new();
    lines.push(rule.clone());
    lines.push(middle);
    lines.push(rule);
    Some(lines)
}

} // verus!
